use std::io::Read;

use coop_deployer::archive::LocalFs;
use coop_deployer::auth::{
    auth_failure_status, authorize, bearer_token, caller_from_introspection, require_role, FakeAuth,
    Introspection, IntrospectionExt, ROLE_COOP_DEPLOYER,
};
use coop_deployer::campaign::{create_campaign, list_campaigns, next_campaign_id, new_campaign, update_campaign};
use coop_deployer::db::FakeDb;
use coop_deployer::errors::{AuthError, DbError, FsError};
use coop_deployer::fs::{sort_listing, FakeFs};
use coop_deployer::github::FakeGithub;
use coop_deployer::map::{deploy_all_maps, known_map, try_deploy_all_maps, MapAction, MapConfig, MapDeploy, MapEvent, KNOWN_MAP_COUNT};
use coop_deployer::models::{Asset, Campaign, CallerIdentity, CoopMap, PatchRecord, ZipEntry};
use coop_deployer::patch::{deploy_patches, PatchAction, PatchConfig, PatchDeploy, PatchEvent, PATCH_FILE_COUNT};
use coop_deployer::ports::TestPorts;
use coop_deployer::text::{
    checksum_from_filename, parse_i32, render_hex_bytes, render_hex_u64_width32, render_i32,
    render_i32_width4, str_contains,
};

fn map_config(dry_run: bool) -> MapConfig {
    MapConfig {
        repo_url: "fake".into(),
        git_ref: "master".into(),
        workdir: "/repo".into(),
        map_dir: "/maps".into(),
        dry_run,
    }
}

fn patch_config(dry_run: bool) -> PatchConfig {
    PatchConfig { repo: "FAForever/fa-coop".into(), tag: "v3".into(), version: 3, dry_run }
}

fn seed_release(tp: &mut TestPorts, assets: Vec<(&str, &str, &[u8])>) {
    let list = assets
        .iter()
        .map(|(name, url, _)| Asset { name: name.to_string(), download_url: url.to_string() })
        .collect();
    tp.github.seed_assets("FAForever/fa-coop", "v3", list);
    for (_, url, content) in assets {
        tp.github.seed_download(url, content);
    }
}

#[test]
fn decimal_rendering() {
    assert_eq!(render_i32(0), "0");
    assert_eq!(render_i32(-42), "-42");
    assert_eq!(render_i32(i32::MIN), "-2147483648");
    assert_eq!(render_i32_width4(3), "0003");
    assert_eq!(render_i32_width4(12345), "12345");
    assert_eq!(render_i32_width4(-5), "-005");
}

#[test]
fn hex_rendering() {
    assert_eq!(render_hex_u64_width32(255), "000000000000000000000000000000ff");
    assert_eq!(render_hex_u64_width32(0), "00000000000000000000000000000000");
    assert_eq!(render_hex_bytes(&[0xde, 0xad, 0x00, 0x0f]), "dead000f");
    assert_eq!(render_hex_bytes(&[]), "");
}

#[test]
fn integer_parsing_follows_str_parse() {
    assert_eq!(parse_i32("42"), Some(42));
    assert_eq!(parse_i32("-7"), Some(-7));
    assert_eq!(parse_i32("+5"), Some(5));
    assert_eq!(parse_i32("2147483647"), Some(i32::MAX));
    assert_eq!(parse_i32("-2147483648"), Some(i32::MIN));
    assert_eq!(parse_i32("2147483648"), None);
    assert_eq!(parse_i32(""), None);
    assert_eq!(parse_i32("-"), None);
    assert_eq!(parse_i32("12a"), None);
    assert_eq!(parse_i32(" 1"), None);
}

#[test]
fn checksum_is_read_from_stored_file_name() {
    assert_eq!(checksum_from_filename("name.v0001.abc12345.zip"), "abc12345");
    assert_eq!(checksum_from_filename("a.zip.zip"), "a");
    assert_eq!(checksum_from_filename("plain"), "plain");
    assert_eq!(checksum_from_filename(""), "");
    assert_eq!(checksum_from_filename("x.v1."), "");
}

#[test]
fn substring_search() {
    assert!(str_contains("role 'X' required", "role"));
    assert!(str_contains("abc", ""));
    assert!(!str_contains("rol", "role"));
}

#[test]
fn bearer_header_parsing() {
    assert_eq!(bearer_token(Some("Bearer abc.def")), Some("abc.def".to_string()));
    assert_eq!(bearer_token(Some("Bearer ")), Some(String::new()));
    assert_eq!(bearer_token(Some("Basic abc")), None);
    assert_eq!(bearer_token(Some("bearer abc")), None);
    assert_eq!(bearer_token(None), None);
}

#[test]
fn refused_requests_get_403_for_roles_else_401() {
    assert_eq!(auth_failure_status(&AuthError::forbidden("role 'COOP_DEPLOYER' required, got: []")), 403);
    assert_eq!(auth_failure_status(&AuthError::unauthorized("empty token")), 401);
    assert_eq!(auth_failure_status(&AuthError::new("token is not active")), 401);
}

#[test]
fn missing_role_message_lists_the_roles_held() {
    let mut tp = TestPorts::new();
    tp.auth = FakeAuth {
        identity: CallerIdentity { user_id: 2, username: "NoRole".into(), roles: vec!["USER".into()] },
    };
    let err = require_role(&tp, "any-token", ROLE_COOP_DEPLOYER).unwrap_err();
    assert_eq!(err.to_string(), "role 'COOP_DEPLOYER' required, got: [\"USER\"]");
    assert_eq!(auth_failure_status(&err), 403);
    let empty = require_role(&tp, "", ROLE_COOP_DEPLOYER).unwrap_err();
    assert_eq!(empty.to_string(), "empty token");
    assert_eq!(auth_failure_status(&empty), 401);
}

#[test]
fn authorize_passes_the_identity_through() {
    let id = CallerIdentity { user_id: 3, username: "ann".into(), roles: vec!["COOP_DEPLOYER".into()] };
    let ok = authorize(id.clone(), ROLE_COOP_DEPLOYER).unwrap();
    assert_eq!(ok, id);
    let none = CallerIdentity { user_id: 3, username: "ann".into(), roles: vec![] };
    assert_eq!(authorize(none, "ADMIN").unwrap_err().to_string(), "role 'ADMIN' required, got: []");
}

#[test]
fn introspection_to_identity() {
    let inactive = Introspection { active: false, sub: Some("12".into()), ext: None };
    assert_eq!(caller_from_introspection(inactive).unwrap_err().to_string(), "token is not active");

    let bad_sub = Introspection { active: true, sub: Some("alice".into()), ext: None };
    assert_eq!(caller_from_introspection(bad_sub).unwrap_err().to_string(), "invalid sub claim");

    let no_sub = Introspection { active: true, sub: None, ext: None };
    assert_eq!(caller_from_introspection(no_sub).unwrap_err().to_string(), "invalid sub claim");

    let bare = Introspection { active: true, sub: Some("12".into()), ext: None };
    let id = caller_from_introspection(bare).unwrap();
    assert_eq!(id, CallerIdentity { user_id: 12, username: "12".into(), roles: vec![] });

    let full = Introspection {
        active: true,
        sub: Some("-3".into()),
        ext: Some(IntrospectionExt { roles: vec!["COOP_DEPLOYER".into()], username: Some("bob".into()) }),
    };
    let id = caller_from_introspection(full).unwrap();
    assert_eq!(id, CallerIdentity { user_id: -3, username: "bob".into(), roles: vec!["COOP_DEPLOYER".into()] });

    let unnamed = Introspection {
        active: true,
        sub: Some("7".into()),
        ext: Some(IntrospectionExt { roles: vec![], username: None }),
    };
    assert_eq!(caller_from_introspection(unnamed).unwrap().username, "7");
}

#[test]
fn campaign_ids_follow_the_largest() {
    assert_eq!(next_campaign_id(&vec![]), 1);
    let existing = vec![
        Campaign { id: 4, name: "A".into(), map_ids: vec![] },
        Campaign { id: 9, name: "B".into(), map_ids: vec![] },
        Campaign { id: 2, name: "C".into(), map_ids: vec![] },
    ];
    assert_eq!(next_campaign_id(&existing), 10);
    let c = new_campaign(&existing, "D".into(), vec![5]);
    assert_eq!(c, Campaign { id: 10, name: "D".into(), map_ids: vec![5] });
    let negative = vec![Campaign { id: -5, name: "N".into(), map_ids: vec![] }];
    assert_eq!(next_campaign_id(&negative), -4);
}

#[test]
fn campaign_store_reads_back_and_keeps_others() {
    let mut tp = TestPorts::new();
    let uef = create_campaign(&mut tp, "UEF".into(), vec![1, 2]).unwrap();
    let aeon = create_campaign(&mut tp, "Aeon".into(), vec![8]).unwrap();
    assert_eq!((uef.id, aeon.id), (1, 2));
    update_campaign(&mut tp, 7, "Cybran".into(), vec![20]).unwrap();
    update_campaign(&mut tp, 1, "UEF".into(), vec![3]).unwrap();
    update_campaign(&mut tp, 1, "UEF".into(), vec![3]).unwrap();
    let mut all = list_campaigns(&tp).unwrap();
    all.sort_by_key(|c| c.id);
    assert_eq!(
        all,
        vec![
            Campaign { id: 1, name: "UEF".into(), map_ids: vec![3] },
            Campaign { id: 2, name: "Aeon".into(), map_ids: vec![8] },
            Campaign { id: 7, name: "Cybran".into(), map_ids: vec![20] },
        ]
    );
    let next = create_campaign(&mut tp, "Seraphim".into(), vec![]).unwrap();
    assert_eq!(next.id, 8);
}

#[test]
fn map_records_read_after_write() {
    let mut db = FakeDb::new();
    db.update_map(42, 3, "maps/foo.v0003.zip", "abc123").unwrap();
    let created = db.get_map_sync(42).unwrap();
    assert_eq!(
        created,
        CoopMap { id: 42, name: "map_42".into(), version: 3, filename: "maps/foo.v0003.zip".into(), checksum: "abc123".into() }
    );
    db.seed_map(CoopMap { id: 5, name: "Fort".into(), version: 1, filename: "f".into(), checksum: "c".into() });
    db.update_map(5, 2, "g", "d").unwrap();
    let updated = db.get_map(5).unwrap().unwrap();
    assert_eq!(updated, CoopMap { id: 5, name: "Fort".into(), version: 2, filename: "g".into(), checksum: "d".into() });
    assert_eq!(db.get_map(6).unwrap(), None);
    assert_eq!(db.get_map_sync(42).unwrap().version, 3);
}

#[test]
fn patch_records_replace_by_file_id() {
    let mut db = FakeDb::new();
    db.upsert_patch(PatchRecord { file_id: 3, name: "A01_VO".into(), md5: "x".into(), version: 1 }).unwrap();
    db.upsert_patch(PatchRecord { file_id: 3, name: "A01_VO".into(), md5: "y".into(), version: 2 }).unwrap();
    let r = db.get_patch_record(3).unwrap().unwrap();
    assert_eq!((r.md5.as_str(), r.version), ("y", 2));
    assert_eq!(db.get_patch_record(4).unwrap(), None);
}

#[test]
fn fake_fs_files_and_checksums() {
    let mut fs = FakeFs::new();
    fs.seed_file("/d/b.txt", b"bb");
    fs.seed_file("/d/a.txt", b"a");
    fs.seed_file("/d2/c.txt", b"c");
    fs.seed_file("/d/sub/e.txt", b"e");
    assert_eq!(fs.list_files("/d").unwrap(), vec!["/d/a.txt", "/d/b.txt", "/d/sub/e.txt"]);
    assert_eq!(fs.list_files("/nowhere").unwrap(), Vec::<String>::new());
    assert_eq!(fs.read_file("/d/a.txt").unwrap(), b"a".to_vec());
    assert_eq!(fs.read_file("/d/./a.txt").unwrap(), b"a".to_vec());
    assert_eq!(fs.read_file("/x").unwrap_err().to_string(), "file not found: /x");
    fs.copy_file("/d/b.txt", "/e/b.txt").unwrap();
    assert_eq!(fs.read_file("/e/b.txt").unwrap(), b"bb".to_vec());
    assert_eq!(fs.copy_file("/none", "/e/n").unwrap_err().to_string(), "file not found: /none");
    assert_eq!(fs.compute_md5(b"abc").unwrap(), "00000000000000000000000000000126");
    assert_eq!(fs.compute_md5(b"").unwrap(), "00000000000000000000000000000000");
    fs.write_zip(vec![ZipEntry { path: "m/x".into(), content: b"1".to_vec() }], "/z/m.zip").unwrap();
    let z = fs.written_zip("/z/m.zip").unwrap();
    assert_eq!((z.len(), z[0].path.as_str()), (1, "m/x"));
    assert!(fs.written_zip("/z/other.zip").is_none());
}

#[test]
fn fake_github_serves_what_was_seeded() {
    let mut gh = FakeGithub::new();
    gh.seed_assets("o/r", "v1", vec![Asset { name: "a".into(), download_url: "u".into() }]);
    gh.seed_download("u", b"bytes");
    let assets = gh.fetch_release_assets("o/r", "v1").unwrap();
    assert_eq!((assets.len(), assets[0].name.as_str()), (1, "a"));
    assert!(gh.fetch_release_assets("o/r", "v2").unwrap().is_empty());
    assert_eq!(gh.download_asset("u").unwrap(), b"bytes".to_vec());
    assert_eq!(gh.download_asset("v").unwrap_err().to_string(), "no seeded download for v");
}

#[test]
fn local_md5_is_the_real_digest() {
    let fs = LocalFs;
    assert_eq!(fs.compute_md5(b"").unwrap(), "d41d8cd98f00b204e9800998ecf8427e");
    assert_eq!(fs.compute_md5(b"abc").unwrap(), "900150983cd24fb0d6963f7d28e17f72");
}

#[test]
fn local_zip_archive_holds_the_entries() {
    let fs = LocalFs;
    let bytes = fs
        .zip_archive(vec![
            ZipEntry { path: "X1CA_Coop_001/map.lua".into(), content: b"hello hello hello".to_vec() },
            ZipEntry { path: "X1CA_Coop_001/sub/a.txt".into(), content: b"".to_vec() },
        ])
        .unwrap();
    assert_eq!(&bytes[0..2], b"PK");
    let mut archive = zip::ZipArchive::new(std::io::Cursor::new(bytes)).unwrap();
    assert_eq!(archive.len(), 2);
    let mut first = archive.by_index(0).unwrap();
    assert_eq!(first.name(), "X1CA_Coop_001/map.lua");
    let mut text = String::new();
    first.read_to_string(&mut text).unwrap();
    assert_eq!(text, "hello hello hello");
    drop(first);
    assert_eq!(archive.by_index(1).unwrap().name(), "X1CA_Coop_001/sub/a.txt");
    let empty = fs.zip_archive(vec![]).unwrap();
    assert_eq!(zip::ZipArchive::new(std::io::Cursor::new(empty)).unwrap().len(), 0);
}

#[test]
fn known_maps_table() {
    assert_eq!(KNOWN_MAP_COUNT, 31);
    let first = known_map(0);
    assert_eq!((first.id, first.folder_name), (1, "X1CA_Coop_001"));
    let second = known_map(1);
    assert_eq!((second.id, second.folder_name), (3, "X1CA_Coop_002"));
    let last = known_map(30);
    assert_eq!((last.id, last.folder_name), (49, "FAF_Coop_Operation_Tha_Thuum"));
}

#[test]
fn map_deployment_records_archive_and_checksum() {
    let mut tp = TestPorts::new();
    tp.fs.seed_file("/repo/X1CA_Coop_001/map.lua", b"content v2");
    let result = deploy_all_maps(&mut tp, &map_config(false)).unwrap();
    assert_eq!((result.updated, result.skipped), (1, 30));
    let map = tp.db.get_map_sync(1).unwrap();
    assert_eq!(map.filename, "maps/X1CA_Coop_001.v0001.00000000.zip");
    assert_eq!(map.checksum, "000000000000000000000000000003c3");
    assert_eq!(map.name, "map_1");
    let zip = tp.fs.written_zip("/maps/X1CA_Coop_001.v0001.00000000.zip").unwrap();
    assert_eq!(zip.len(), 1);
    assert_eq!(zip[0].path, "X1CA_Coop_001/map.lua");
    assert_eq!(zip[0].content, b"content v2".to_vec());
}

#[test]
fn changed_map_gets_next_version() {
    let mut tp = TestPorts::new();
    tp.fs.seed_file("/repo/X1CA_Coop_002/a.lua", b"one");
    deploy_all_maps(&mut tp, &map_config(false)).unwrap();
    assert_eq!(tp.db.get_map_sync(3).unwrap().version, 1);
    tp.fs.seed_file("/repo/X1CA_Coop_002/a.lua", b"two");
    let result = deploy_all_maps(&mut tp, &map_config(false)).unwrap();
    assert_eq!((result.updated, result.skipped), (1, 30));
    let map = tp.db.get_map_sync(3).unwrap();
    assert_eq!((map.version, map.filename.as_str()), (2, "maps/X1CA_Coop_002.v0002.00000000.zip"));
    assert!(tp.fs.written_zip("/maps/X1CA_Coop_002.v0002.00000000.zip").is_some());
}

#[test]
fn map_archive_takes_files_in_path_order_from_the_folder_only() {
    let mut tp = TestPorts::new();
    tp.fs.seed_file("/repo/X1CA_Coop_001/z.lua", b"z");
    tp.fs.seed_file("/repo/X1CA_Coop_001/a/b.lua", b"b");
    tp.fs.seed_file("/repo/X1CA_Coop_0010/other.lua", b"o");
    deploy_all_maps(&mut tp, &map_config(false)).unwrap();
    let zip = tp.fs.written_zip("/maps/X1CA_Coop_001.v0001.00000000.zip").unwrap();
    let paths: Vec<&str> = zip.iter().map(|e| e.path.as_str()).collect();
    assert_eq!(paths, vec!["X1CA_Coop_001/a/b.lua", "X1CA_Coop_001/z.lua"]);
    assert_eq!(tp.db.get_map_sync(1).unwrap().checksum, "000000000000000000000000000000dc");
}

#[test]
fn map_dry_run_counts_but_writes_no_archive() {
    let mut tp = TestPorts::new();
    tp.fs.seed_file("/repo/X1CA_Coop_001/map.lua", b"content");
    let result = deploy_all_maps(&mut tp, &map_config(true)).unwrap();
    assert_eq!((result.updated, result.skipped), (1, 30));
    assert!(tp.fs.written_zip("/maps/X1CA_Coop_001.v0001.00000000.zip").is_none());
}

#[test]
fn no_map_folders_skips_every_map() {
    let mut tp = TestPorts::new();
    let result = deploy_all_maps(&mut tp, &map_config(false)).unwrap();
    assert_eq!((result.updated, result.skipped), (0, 31));
}

#[test]
fn map_machine_starts_with_checkout() {
    let (machine, action) = MapDeploy::start(&map_config(false));
    assert!(!machine.is_finished());
    match action {
        MapAction::Checkout { url, git_ref, workdir } => {
            assert_eq!((url.as_str(), git_ref.as_str(), workdir.as_str()), ("fake", "master", "/repo"));
        }
        _ => panic!("expected a checkout"),
    }
}

#[test]
fn patch_machine_starts_with_fetch() {
    let (machine, action) = PatchDeploy::start(&patch_config(false));
    assert!(!machine.is_finished());
    match action {
        PatchAction::FetchReleaseAssets { repo, tag } => {
            assert_eq!((repo.as_str(), tag.as_str()), ("FAForever/fa-coop", "v3"));
        }
        _ => panic!("expected a fetch"),
    }
}

#[test]
fn patch_deployment_records_versions() {
    let mut tp = TestPorts::new();
    seed_release(&mut tp, vec![("init_coop.nx2", "http://fake/init", b"abc"), ("lobby_coop_v2.nx2", "http://fake/lobby", b"x")]);
    let first = deploy_patches(&mut tp, &patch_config(false)).unwrap();
    assert_eq!((first.updated, first.skipped), (2, 23));
    let init = tp.db.get_patch_record(1).unwrap().unwrap();
    assert_eq!(init, PatchRecord { file_id: 1, name: "init_coop".into(), md5: "00000000000000000000000000000126".into(), version: 1 });
    assert_eq!(tp.db.get_patch_record(2).unwrap().unwrap().name, "lobby_coop");

    tp.github.seed_download("http://fake/init", b"abd");
    let second = deploy_patches(&mut tp, &patch_config(false)).unwrap();
    assert_eq!((second.updated, second.skipped), (1, 24));
    let init = tp.db.get_patch_record(1).unwrap().unwrap();
    assert_eq!((init.version, init.md5.as_str()), (2, "00000000000000000000000000000127"));
    assert_eq!(PATCH_FILE_COUNT, 25);
}

#[test]
fn patch_without_download_fails_the_run() {
    let mut tp = TestPorts::new();
    tp.github.seed_assets(
        "FAForever/fa-coop",
        "v3",
        vec![Asset { name: "A01_VO.nx2".into(), download_url: "http://fake/missing".into() }],
    );
    let err = deploy_patches(&mut tp, &patch_config(false)).unwrap_err();
    assert_eq!(err.to_string(), "download failed for A01_VO: no seeded download for http://fake/missing");
}

#[test]
fn patch_dry_run_counts_but_records_nothing() {
    let mut tp = TestPorts::new();
    seed_release(&mut tp, vec![("init_coop.nx2", "http://fake/init", b"abc")]);
    let result = deploy_patches(&mut tp, &patch_config(true)).unwrap();
    assert_eq!((result.updated, result.skipped), (1, 24));
    assert_eq!(tp.db.get_patch_record(1).unwrap(), None);
}

#[test]
fn empty_release_skips_every_patch() {
    let mut tp = TestPorts::new();
    let result = deploy_patches(&mut tp, &patch_config(false)).unwrap();
    assert_eq!((result.updated, result.skipped), (0, 25));
}

#[test]
fn configs_from_variables() {
    let p = PatchConfig::from_vars(None, None, None);
    assert_eq!((p.repo.as_str(), p.tag.as_str(), p.version, p.dry_run), ("FAForever/fa-coop", "latest", 1, false));
    let p = PatchConfig::from_vars(Some("me/fork".into()), Some("12".into()), Some("true".into()));
    assert_eq!((p.repo.as_str(), p.tag.as_str(), p.version, p.dry_run), ("me/fork", "12", 12, true));
    let p = PatchConfig::from_vars(None, Some("v3".into()), Some("yes".into()));
    assert_eq!((p.tag.as_str(), p.version, p.dry_run), ("v3", 1, false));
    let m = MapConfig::from_vars(None, None, None, None, None);
    assert_eq!(
        (m.repo_url.as_str(), m.git_ref.as_str(), m.workdir.as_str(), m.map_dir.as_str(), m.dry_run),
        ("https://github.com/FAForever/faf-coop-maps", "master", "/tmp/coop-maps", "/maps", false)
    );
    let m = MapConfig::from_vars(Some("u".into()), Some("dev".into()), Some("/w".into()), Some("/o".into()), Some("true".into()));
    assert_eq!(
        (m.repo_url.as_str(), m.git_ref.as_str(), m.workdir.as_str(), m.map_dir.as_str(), m.dry_run),
        ("u", "dev", "/w", "/o", true)
    );
}

#[test]
fn changed_map_increments_recorded_version() {
    let mut tp = TestPorts::new();
    tp.db.seed_map(CoopMap {
        id: 1,
        name: "Operation Black Day".into(),
        version: 3,
        filename: "maps/X1CA_Coop_001.v0003.zip".into(),
        checksum: "old".into(),
    });
    tp.fs.seed_file("/repo/X1CA_Coop_001/map.lua", b"content v2");
    let result = deploy_all_maps(&mut tp, &map_config(false)).unwrap();
    assert_eq!(result.updated, 1);
    let map = tp.db.get_map_sync(1).unwrap();
    assert_eq!(
        map,
        CoopMap {
            id: 1,
            name: "Operation Black Day".into(),
            version: 4,
            filename: "maps/X1CA_Coop_001.v0004.00000000.zip".into(),
            checksum: "000000000000000000000000000003c3".into(),
        }
    );
}

#[test]
fn map_with_recorded_checksum_is_skipped_and_kept() {
    let mut tp = TestPorts::new();
    let recorded = CoopMap {
        id: 1,
        name: "Op".into(),
        version: 3,
        filename: "maps/X1CA_Coop_001.v0003.zip".into(),
        checksum: "000000000000000000000000000003c3".into(),
    };
    tp.db.seed_map(recorded.clone());
    tp.fs.seed_file("/repo/X1CA_Coop_001/map.lua", b"content v2");
    let result = deploy_all_maps(&mut tp, &map_config(false)).unwrap();
    assert_eq!((result.updated, result.skipped), (0, 31));
    assert_eq!(tp.db.get_map_sync(1).unwrap(), recorded);
    assert!(tp.fs.written_zip("/maps/X1CA_Coop_001.v0004.00000000.zip").is_none());
}

#[test]
fn changed_patch_increments_recorded_version() {
    let mut tp = TestPorts::new();
    tp.db.seed_patch(PatchRecord { file_id: 1, name: "init_coop".into(), md5: "old".into(), version: 2 });
    tp.db.seed_patch(PatchRecord { file_id: 2, name: "lobby_coop".into(), md5: "keep".into(), version: 5 });
    seed_release(&mut tp, vec![("init_coop.nx2", "http://fake/init", b"abc")]);
    let result = deploy_patches(&mut tp, &patch_config(false)).unwrap();
    assert_eq!((result.updated, result.skipped), (1, 24));
    let init = tp.db.get_patch_record(1).unwrap().unwrap();
    assert_eq!((init.version, init.md5.as_str()), (3, "00000000000000000000000000000126"));
    let lobby = tp.db.get_patch_record(2).unwrap().unwrap();
    assert_eq!((lobby.version, lobby.md5.as_str()), (5, "keep"));
}

#[test]
fn stored_files_read_back_by_path() {
    let mut fs = FakeFs::new();
    fs.seed_file("/a/b", b"1");
    fs.seed_file("/a/b", b"2");
    assert_eq!(fs.read_file("/a/b").unwrap(), b"2".to_vec());
    assert_eq!(fs.list_files("/a").unwrap(), vec!["/a/b"]);
    fs.write_zip(vec![], "/z.zip").unwrap();
    fs.write_zip(vec![ZipEntry { path: "p".into(), content: vec![7] }], "/z.zip").unwrap();
    let z = fs.written_zip("/z.zip").unwrap();
    assert_eq!((z.len(), z[0].content.clone()), (1, vec![7]));
}

#[test]
fn local_zip_archive_depends_on_the_entries_alone() {
    let fs = LocalFs;
    let entries = || {
        vec![
            ZipEntry { path: "m/a.lua".into(), content: b"alpha".to_vec() },
            ZipEntry { path: "m/b.lua".into(), content: b"beta".to_vec() },
        ]
    };
    let first = fs.zip_archive(entries()).unwrap();
    let second = fs.zip_archive(entries()).unwrap();
    assert_eq!(first, second);
    let other = fs.zip_archive(vec![ZipEntry { path: "m/a.lua".into(), content: b"alphA".to_vec() }]).unwrap();
    assert_ne!(first, other);
    let duplicate = fs.zip_archive(vec![
        ZipEntry { path: "m/a.lua".into(), content: b"1".to_vec() },
        ZipEntry { path: "m/a.lua".into(), content: b"2".to_vec() },
    ]);
    assert!(duplicate.unwrap_err().to_string().starts_with("zip entry error: "));
}

#[test]
fn stored_checksum_prefix_counts_as_unchanged() {
    let mut tp = TestPorts::new();
    let recorded = CoopMap {
        id: 1,
        name: "Op".into(),
        version: 2,
        filename: "maps/X1CA_Coop_001.v0002.00000000.zip".into(),
        checksum: "00000000".into(),
    };
    tp.db.seed_map(recorded.clone());
    tp.fs.seed_file("/repo/X1CA_Coop_001/map.lua", b"content v2");
    let result = deploy_all_maps(&mut tp, &map_config(false)).unwrap();
    assert_eq!((result.updated, result.skipped), (0, 31));
    assert_eq!(tp.db.get_map_sync(1).unwrap(), recorded);
}

#[test]
fn map_skips_carry_their_reason() {
    let (mut machine, _) = MapDeploy::start(&map_config(false));
    assert!(matches!(machine.step(MapEvent::CheckedOut(Ok(()))), MapAction::ListFiles { .. }));
    assert_eq!(machine.warning(), None);
    machine.step(MapEvent::Listed(Ok(vec![])));
    assert_eq!(machine.warning().unwrap(), "skipping map 1 (X1CA_Coop_001): no files found for X1CA_Coop_001");
    machine.step(MapEvent::Listed(Err(FsError::new("boom"))));
    assert_eq!(
        machine.warning().unwrap(),
        "skipping map 3 (X1CA_Coop_002): cannot list X1CA_Coop_002: boom"
    );
    let a = machine.step(MapEvent::Listed(Ok(vec!["/repo/X1CA_Coop_003/a.lua".into()])));
    assert!(matches!(a, MapAction::ReadFile { .. }));
    assert_eq!(machine.warning(), None);
    machine.step(MapEvent::FileRead(Err(FsError::new("gone"))));
    assert_eq!(
        machine.warning().unwrap(),
        "skipping map 4 (X1CA_Coop_003): cannot read /repo/X1CA_Coop_003/a.lua: gone"
    );
    machine.step(MapEvent::Listed(Ok(vec!["/repo/X1CA_Coop_004/a.lua".into()])));
    machine.step(MapEvent::FileRead(Ok(b"x".to_vec())));
    let a = machine.step(MapEvent::Md5Computed(Ok("0123456789abcdef".into())));
    assert!(matches!(a, MapAction::GetMap { id: 5 }));
    let a = machine.step(MapEvent::MapFetched(Err(DbError::new("db down"))));
    assert!(matches!(a, MapAction::ListFiles { .. }));
    assert_eq!(machine.warning().unwrap(), "skipping map 5 (X1CA_Coop_004): db down");
}

#[test]
fn map_archive_name_carries_the_checksum_prefix() {
    let (mut machine, _) = MapDeploy::start(&map_config(false));
    machine.step(MapEvent::CheckedOut(Ok(())));
    machine.step(MapEvent::Listed(Ok(vec!["/repo/X1CA_Coop_001/a.lua".into()])));
    machine.step(MapEvent::FileRead(Ok(b"x".to_vec())));
    machine.step(MapEvent::Md5Computed(Ok("0123456789abcdef".into())));
    match machine.step(MapEvent::MapFetched(Ok(None))) {
        MapAction::WriteZip { dest, .. } => assert_eq!(dest, "/maps/X1CA_Coop_001.v0001.01234567.zip"),
        _ => panic!("expected an archive write"),
    }
    match machine.step(MapEvent::ZipWritten(Ok(()))) {
        MapAction::UpdateMap { id, version, filename, checksum } => {
            assert_eq!((id, version), (1, 1));
            assert_eq!(filename, "maps/X1CA_Coop_001.v0001.01234567.zip");
            assert_eq!(checksum, "0123456789abcdef");
        }
        _ => panic!("expected a map update"),
    }
    assert_eq!(checksum_from_filename("maps/X1CA_Coop_001.v0001.01234567.zip"), "01234567");
}

#[test]
fn patch_skips_of_missing_assets_are_noted() {
    let (mut machine, _) = PatchDeploy::start(&patch_config(false));
    assert!(machine.notes().is_empty());
    let a = machine.step(PatchEvent::AssetsFetched(Ok(vec![Asset {
        name: "A01_VO.nx2".into(),
        download_url: "http://fake/a01".into(),
    }])));
    match a {
        PatchAction::DownloadAsset { url } => assert_eq!(url, "http://fake/a01"),
        _ => panic!("expected a download"),
    }
    assert_eq!(
        machine.notes(),
        vec![
            "patch 'init_coop' not in release v3 (unchanged), skipping".to_string(),
            "patch 'lobby_coop' not in release v3 (unchanged), skipping".to_string(),
        ]
    );
    machine.step(PatchEvent::AssetDownloaded(Ok(b"abc".to_vec())));
    assert!(machine.notes().is_empty());
}

#[test]
fn dry_runs_count_as_real_runs() {
    let mut real = TestPorts::new();
    let mut dry = TestPorts::new();
    for tp in [&mut real, &mut dry] {
        tp.fs.seed_file("/repo/X1CA_Coop_001/map.lua", b"content");
        tp.fs.seed_file("/repo/SCCA_Coop_A01/map.lua", b"other");
        seed_release(tp, vec![("init_coop.nx2", "http://fake/init", b"abc")]);
    }
    let m_dry = deploy_all_maps(&mut dry, &map_config(true)).unwrap();
    let m_real = deploy_all_maps(&mut real, &map_config(false)).unwrap();
    assert_eq!(m_dry, m_real);
    let p_dry = deploy_patches(&mut dry, &patch_config(true)).unwrap();
    let p_real = deploy_patches(&mut real, &patch_config(false)).unwrap();
    assert_eq!(p_dry, p_real);
    assert_eq!((m_real.updated, p_real.updated), (2, 1));
}

#[test]
fn zip_archive_success_cases() {
    let fs = LocalFs;
    assert!(fs.zip_archive(vec![]).is_ok());
    assert!(fs.zip_archive(vec![ZipEntry { path: "only".into(), content: vec![] }]).is_ok());
    assert!(fs
        .zip_archive(vec![
            ZipEntry { path: "a".into(), content: vec![1] },
            ZipEntry { path: "b".into(), content: vec![] },
            ZipEntry { path: "a".into(), content: vec![2] },
        ])
        .is_err());
}

#[test]
fn listing_sort_keeps_every_path() {
    let sorted = sort_listing(vec!["/d/b".into(), "/d/a".into(), "/d/b".into()]);
    assert_eq!(sorted, vec!["/d/a", "/d/b", "/d/b"]);
}

#[test]
fn updated_maps_keep_their_id() {
    let mut db = FakeDb::new();
    db.seed_map(CoopMap { id: 9, name: "n".into(), version: 1, filename: "f".into(), checksum: "c".into() });
    db.update_map(9, 2, "g", "d").unwrap();
    assert_eq!(db.get_map(9).unwrap().unwrap().id, 9);
    db.update_map(10, 1, "h", "e").unwrap();
    assert_eq!(db.get_map_sync(10).unwrap().id, 10);
}

#[test]
fn zip_archive_fails_only_on_limits_or_repeats() {
    let fs = LocalFs;
    let many: Vec<ZipEntry> = (0..5)
        .map(|i| ZipEntry { path: format!("m/{i}.lua"), content: vec![i as u8; 1000 * i] })
        .collect();
    let bytes = fs.zip_archive(many).unwrap();
    let archive = zip::ZipArchive::new(std::io::Cursor::new(bytes)).unwrap();
    assert_eq!(archive.len(), 5);
}

#[test]
fn checked_map_deployment_matches_the_plain_one() {
    let mut a = TestPorts::new();
    let mut b = TestPorts::new();
    a.fs.seed_file("/repo/X1CA_Coop_001/map.lua", b"content");
    b.fs.seed_file("/repo/X1CA_Coop_001/map.lua", b"content");
    let plain = deploy_all_maps(&mut a, &map_config(false)).unwrap();
    let checked = try_deploy_all_maps(&mut b, &map_config(false)).unwrap().unwrap();
    assert_eq!(plain, checked);
    assert_eq!(a.db.get_map_sync(1), b.db.get_map_sync(1));
}

#[test]
fn checked_map_deployment_stops_before_a_version_overflow() {
    let mut tp = TestPorts::new();
    tp.db.seed_map(CoopMap { id: 1, name: "m".into(), version: i32::MAX, filename: "f".into(), checksum: "old".into() });
    tp.fs.seed_file("/repo/X1CA_Coop_001/map.lua", b"content");
    assert!(try_deploy_all_maps(&mut tp, &map_config(false)).is_none());
    assert_eq!(tp.db.get_map_sync(1).unwrap().version, i32::MAX);
}

#[test]
fn seeding_one_path_leaves_other_paths() {
    let mut fs = FakeFs::new();
    fs.seed_file("/a/x", b"1");
    fs.seed_file("/a/y", b"2");
    fs.seed_file("/a/./x", b"3");
    assert_eq!(fs.read_file("/a/x").unwrap(), b"3".to_vec());
    assert_eq!(fs.read_file("/a/y").unwrap(), b"2".to_vec());
}
