use coop_deployer::auth::{require_role, FakeAuth, ROLE_COOP_DEPLOYER};
use coop_deployer::campaign::{create_campaign, list_campaigns, update_campaign};
use coop_deployer::db::FakeDb;
use coop_deployer::map::{deploy_all_maps, MapConfig};
use coop_deployer::models::{Asset, CallerIdentity, PatchRecord};
use coop_deployer::patch::{deploy_patches, PatchConfig};
use coop_deployer::ports::{fake_ports, TestPorts};

fn map_config() -> MapConfig {
    MapConfig {
        repo_url: "fake".into(),
        git_ref: "master".into(),
        workdir: "/repo".into(),
        map_dir: "/maps".into(),
        dry_run: false,
    }
}

fn patch_config() -> PatchConfig {
    PatchConfig { repo: "FAForever/fa-coop".into(), tag: "v3".into(), version: 3, dry_run: false }
}

fn seed_init_coop(tp: &mut TestPorts, content: &[u8]) {
    tp.github.seed_assets(
        "FAForever/fa-coop",
        "v3",
        vec![Asset { name: "init_coop.nx2".into(), download_url: "http://fake/init_coop".into() }],
    );
    tp.github.seed_download("http://fake/init_coop", content);
}

#[test]
fn update_map_creates_if_missing() {
    let mut db = FakeDb::new();
    db.update_map(42, 3, "maps/foo.v0003.zip", "abc123").unwrap();
    let map = db.get_map(42).unwrap().unwrap();
    assert_eq!(map.version, 3);
    assert_eq!(map.filename, "maps/foo.v0003.zip");
}

#[test]
fn seed_and_retrieve_patch() {
    let mut db = FakeDb::new();
    db.seed_patch(PatchRecord { file_id: 1, name: "voice.nx2".into(), md5: "abc".into(), version: 2 });
    let record = db.get_patch_record(1).unwrap().unwrap();
    assert_eq!(record.md5, "abc");
}

#[test]
fn valid_token_with_role_succeeds() {
    let tp = TestPorts::new();
    let identity = require_role(&tp, "any-token", ROLE_COOP_DEPLOYER).unwrap();
    assert_eq!(identity.username, "TestDeployer");
}

#[test]
fn missing_role_returns_forbidden() {
    let mut tp = TestPorts::new();
    tp.auth = FakeAuth {
        identity: CallerIdentity { user_id: 2, username: "NoRole".into(), roles: vec!["USER".into()] },
    };
    let err = require_role(&tp, "any-token", ROLE_COOP_DEPLOYER).unwrap_err();
    assert!(err.to_string().contains("COOP_DEPLOYER"));
}

#[test]
fn empty_token_returns_unauthorized() {
    let tp = TestPorts::new();
    let err = require_role(&tp, "", ROLE_COOP_DEPLOYER).unwrap_err();
    assert!(err.to_string().contains("empty token"));
}

#[test]
fn create_campaign_assigns_id() {
    let mut ports = fake_ports();
    let campaign = create_campaign(&mut ports, "UEF Campaign".into(), vec![1, 3, 4]).unwrap();
    assert_eq!(campaign.id, 1);
    assert_eq!(campaign.map_ids, vec![1, 3, 4]);
}

#[test]
fn list_campaigns_returns_all() {
    let mut ports = fake_ports();
    create_campaign(&mut ports, "UEF".into(), vec![1, 2]).unwrap();
    create_campaign(&mut ports, "Aeon".into(), vec![8, 9]).unwrap();
    let campaigns = list_campaigns(&ports).unwrap();
    assert_eq!(campaigns.len(), 2);
}

#[test]
fn update_campaign_changes_map_ids() {
    let mut ports = fake_ports();
    create_campaign(&mut ports, "UEF".into(), vec![1, 2]).unwrap();
    update_campaign(&mut ports, 1, "UEF".into(), vec![1, 2, 3]).unwrap();
    let campaigns = list_campaigns(&ports).unwrap();
    let uef = campaigns.iter().find(|c| c.id == 1).unwrap();
    assert_eq!(uef.map_ids, vec![1, 2, 3]);
}

#[test]
fn changed_map_is_updated() {
    let mut tp = TestPorts::new();
    tp.fs.seed_file("/repo/X1CA_Coop_001/map.lua", b"content v2".as_ref());

    let result = deploy_all_maps(&mut tp, &map_config()).unwrap();

    assert!(result.updated >= 1);
    let map = tp.db.get_map_sync(1).unwrap();
    assert_eq!(map.version, 1);
    assert!(map.filename.contains("X1CA_Coop_001"));
}

#[test]
fn unchanged_map_is_skipped() {
    let mut tp = TestPorts::new();
    tp.fs.seed_file("/repo/X1CA_Coop_001/map.lua", b"content".as_ref());

    deploy_all_maps(&mut tp, &map_config()).unwrap();
    let version_after_first = tp.db.get_map_sync(1).unwrap().version;

    deploy_all_maps(&mut tp, &map_config()).unwrap();
    let version_after_second = tp.db.get_map_sync(1).unwrap().version;

    assert_eq!(version_after_first, version_after_second);
}

#[test]
fn map_dry_run_does_not_write_db() {
    let mut tp = TestPorts::new();
    tp.fs.seed_file("/repo/X1CA_Coop_001/map.lua", b"content".as_ref());

    let mut config = map_config();
    config.dry_run = true;
    deploy_all_maps(&mut tp, &config).unwrap();

    assert!(tp.db.get_map_sync(1).is_none());
}

#[test]
fn missing_map_folder_is_skipped_not_fatal() {
    let mut tp = TestPorts::new();
    let result = deploy_all_maps(&mut tp, &map_config()).unwrap();
    assert_eq!(result.updated, 0);
}

#[test]
fn new_asset_is_deployed() {
    let mut tp = TestPorts::new();
    seed_init_coop(&mut tp, b"patch content");

    let result = deploy_patches(&mut tp, &patch_config()).unwrap();
    assert_eq!(result.updated, 1);
}

#[test]
fn unchanged_asset_is_skipped() {
    let mut tp = TestPorts::new();
    seed_init_coop(&mut tp, b"same content");

    deploy_patches(&mut tp, &patch_config()).unwrap();
    let result = deploy_patches(&mut tp, &patch_config()).unwrap();

    assert_eq!(result.skipped, 25);
}

#[test]
fn patch_dry_run_does_not_write_db() {
    let mut tp = TestPorts::new();
    seed_init_coop(&mut tp, b"content");

    let mut config = patch_config();
    config.dry_run = true;
    deploy_patches(&mut tp, &config).unwrap();

    let record: Option<PatchRecord> = tp.db.get_patch_record(1).unwrap();
    assert!(record.is_none());
}
