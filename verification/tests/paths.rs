use std::path::Path;
use workshop_manager::config::{Config, ConfigError};
use workshop_manager::paths::{join, parent, ManagerPaths};

fn config(steam_cmd: &str) -> Config {
    Config {
        appid: "730".to_string(),
        steam_cmd: steam_cmd.to_string(),
        output_dir: "/srv/maps".to_string(),
        whitelist: vec!["*.bsp".to_string()],
    }
}

const SAMPLES: [&str; 40] = [
    "", "/", "//", "///", ".", "..", "./", "../", "./.", "/.", "/..", "a", "a/", "a//", "a/.",
    "a/./", "a/..", "/a", "/a/", "//a", "/a/b", "a/b", "a//b", "a/./b", "./a", "./a/b", ".a",
    ".a/b", "..a", "a.", "a/b.", "/opt/steam/steamcmd.sh", "steamcmd.sh", "./steamcmd.sh",
    "../steam/steamcmd.sh", "/opt//steam/./steamcmd.sh/", "a/b/c/./.", "/./a", "/./", "./../x",
];

#[test]
fn parent_agrees_with_the_platform() {
    for p in SAMPLES {
        let expected = Path::new(p).parent().map(|d| d.to_str().unwrap().to_string());
        assert_eq!(parent(p), expected, "{:?}", p);
    }
}

#[test]
fn join_agrees_with_the_platform() {
    for base in SAMPLES {
        for rel in SAMPLES {
            let expected = Path::new(base).join(rel).to_str().unwrap().to_string();
            assert_eq!(join(base, rel), expected, "{:?} {:?}", base, rel);
        }
    }
}

#[test]
fn workshop_path_lies_beside_the_agent() {
    let paths = ManagerPaths::new(&config("/opt/steam/steamcmd.sh"), "/home/user");
    assert_eq!(
        paths.steamcmd_workshop_path("730", "100"),
        Ok("/opt/steam/necodl/steamapps/workshop/content/730/100".to_string())
    );
    let paths = ManagerPaths::new(&config("steamcmd.sh"), "/home/user");
    assert_eq!(
        paths.steamcmd_workshop_path("730", "100"),
        Ok("necodl/steamapps/workshop/content/730/100".to_string())
    );
}

#[test]
fn workshop_path_needs_a_parent() {
    let paths = ManagerPaths::new(&config("/"), "/home/user");
    assert_eq!(paths.steamcmd_workshop_path("730", "100"), Err(ConfigError::NoParent));
    let paths = ManagerPaths::new(&config(""), "/home/user");
    assert_eq!(paths.steamcmd_workshop_path("730", "100"), Err(ConfigError::NoParent));
}

#[test]
fn manager_paths_follow_the_settings() {
    let paths = ManagerPaths::new(&config("/opt/steam/steamcmd.sh"), "/home/user");
    assert_eq!(paths.local_files, "/srv/maps");
    assert_eq!(paths.steamcmd, "/opt/steam/steamcmd.sh");
    assert_eq!(paths.metadata_file, "/home/user/metadata.json");
    assert_eq!(paths.workshop_maps_file, "/srv/maps/workshop_maps.txt");
    assert_eq!(paths.cached_file("maps/de_dust.bsp"), "/srv/maps/maps/de_dust.bsp");
}

#[test]
fn the_parent_of_an_entry_is_its_directory() {
    for dir in ["", "/", ".", "..", "a", "/a", "a/b", "/opt/steam", "./x", ".a", "a.", "a/..", "//a"] {
        for name in ["x", "x.bsp", ".x", "x.", "...", ".x.", "a b"] {
            assert_eq!(parent(&join(dir, name)), Some(dir.to_string()), "{:?} {:?}", dir, name);
        }
    }
}
