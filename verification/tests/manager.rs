use workshop_manager::config::{validate_config, Config, ConfigError};
use workshop_manager::manager::{ManagerError, StoredMetadata, StoredRecord, WorkshopManager};
use workshop_manager::model::{FileInfo, WorkshopMetadata};

fn config(appid: &str, steam_cmd: &str, output_dir: &str, whitelist: &[&str]) -> Config {
    Config {
        appid: appid.to_string(),
        steam_cmd: steam_cmd.to_string(),
        output_dir: output_dir.to_string(),
        whitelist: whitelist.iter().map(|p| p.to_string()).collect(),
    }
}

fn good() -> Config {
    config("730", "/opt/steam/steamcmd.sh", "/srv/maps", &["*.bsp"])
}

#[test]
fn settings_must_not_be_blank() {
    assert_eq!(validate_config(&good()), Ok(()));
    assert_eq!(validate_config(&config("", "s", "o", &[])), Err(ConfigError::EmptyAppId));
    assert_eq!(validate_config(&config(" \t", "", "", &[])), Err(ConfigError::EmptyAppId));
    assert_eq!(validate_config(&config("730", "", " ", &[])), Err(ConfigError::EmptyOutputDir));
    assert_eq!(validate_config(&config("730", "\n", "o", &[])), Err(ConfigError::EmptySteamCmd));
    assert_eq!(validate_config(&config(" 7 ", " s ", " o ", &[])), Ok(()));
}

#[test]
fn faults_are_put_in_words() {
    assert_eq!(ConfigError::EmptyAppId.message(), "appid must not be empty in config.toml");
    assert_eq!(
        ConfigError::EmptyOutputDir.message(),
        "output_dir must not be empty in config.toml"
    );
    assert_eq!(
        ConfigError::EmptySteamCmd.message(),
        "steam_cmd must not be empty in config.toml"
    );
    assert_eq!(ConfigError::NoParent.message(), "Steam CMD path has no parent directory");
    assert_eq!(
        ConfigError::InvalidPattern { pattern: "[a".to_string(), reason: "why".to_string() }
            .message(),
        "Invalid glob pattern: [a: why"
    );
    assert_eq!(
        ConfigError::PatternSet { reason: "why".to_string() }.message(),
        "Invalid glob patterns: why"
    );
}

#[test]
fn a_manager_is_set_up_from_good_settings() {
    let manager = WorkshopManager::new(good(), "/home/user", StoredMetadata::Missing).ok().unwrap();
    assert_eq!(manager.config, good());
    assert_eq!(manager.paths.metadata_file, "/home/user/metadata.json");
    assert_eq!(manager.paths.workshop_maps_file, "/srv/maps/workshop_maps.txt");
    assert!(manager.metadata.is_empty());
    assert!(manager.is_allowed("maps/de_dust.bsp"));
    assert!(!manager.is_allowed("readme.txt"));
    assert_eq!(manager.transfer_args("100")[5], "730");
    assert_eq!(manager.transfer_args("100")[6], "100");
    assert_eq!(
        manager.source_path("100"),
        Ok("/opt/steam/necodl/steamapps/workshop/content/730/100".to_string())
    );
}

#[test]
fn a_manager_without_patterns_allows_nothing() {
    let settings = config("730", "/opt/steam/steamcmd.sh", "/srv/maps", &[]);
    let manager = WorkshopManager::new(settings, "/", StoredMetadata::Missing).ok().unwrap();
    assert!(!manager.is_allowed("maps/de_dust.bsp"));
}

#[test]
fn a_manager_takes_the_stored_records() {
    let record = WorkshopMetadata {
        title: "t".to_string(),
        changelog_id: "v".to_string(),
        files: vec![FileInfo { path: "a.bsp".to_string(), hash: "d".to_string() }],
        collection_ids: vec![],
    };
    let stored =
        StoredMetadata::Records(vec![("100".to_string(), StoredRecord::of_metadata(&record))]);
    let manager = WorkshopManager::new(good(), "/home/user", stored).ok().unwrap();
    assert_eq!(manager.metadata.get("100"), Some(&record));
}

#[test]
fn the_first_fault_is_reported() {
    let blank = config(" ", "", "", &["[a"]);
    match WorkshopManager::new(blank, "/", StoredMetadata::Malformed) {
        Err(ManagerError::Config(ConfigError::EmptyAppId)) => {}
        _ => panic!("the blank application ID comes first"),
    }
    let bad_pattern = config("730", "s", "o", &["*.bsp", "[a"]);
    match WorkshopManager::new(bad_pattern, "/", StoredMetadata::Malformed) {
        Err(ManagerError::Config(ConfigError::InvalidPattern { pattern, .. })) => {
            assert_eq!(pattern, "[a")
        }
        _ => panic!("the invalid pattern comes before the store"),
    }
    match WorkshopManager::new(good(), "/", StoredMetadata::Malformed) {
        Err(ManagerError::CorruptStore) => {}
        _ => panic!("a malformed store is corrupt"),
    }
}

#[test]
fn an_agent_without_a_parent_directory_has_no_output_directory() {
    let settings = config("730", "/", "/srv/maps", &[]);
    let manager = WorkshopManager::new(settings, "/", StoredMetadata::Missing).ok().unwrap();
    assert_eq!(manager.source_path("100"), Err(ConfigError::NoParent));
}
