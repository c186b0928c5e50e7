use workshop_manager::maps::{extract_map_name, list_line, workshop_maps_content};
use workshop_manager::model::{FileInfo, WorkshopMetadata};
use workshop_manager::store::MetadataStore;

fn record(paths: &[&str]) -> WorkshopMetadata {
    WorkshopMetadata {
        title: "t".to_string(),
        changelog_id: "v".to_string(),
        files: paths
            .iter()
            .map(|p| FileInfo { path: p.to_string(), hash: String::new() })
            .collect(),
        collection_ids: vec![],
    }
}

fn name(paths: &[&str]) -> Option<String> {
    extract_map_name(&record(paths))
}

#[test]
fn the_map_name_is_the_file_name_without_its_extension() {
    assert_eq!(name(&["de_dust.bsp"]), Some("de_dust".to_string()));
    assert_eq!(name(&["maps/de_dust.bsp"]), Some("de_dust".to_string()));
    assert_eq!(name(&["a/b/c/x.y.bsp"]), Some("x.y".to_string()));
    assert_eq!(name(&["maps/DE_DUST.BSP"]), Some("DE_DUST".to_string()));
    assert_eq!(name(&["maps/De_Dust.bSp"]), Some("De_Dust".to_string()));
}

#[test]
fn the_first_map_among_the_files_gives_the_name() {
    assert_eq!(name(&["readme.txt", "maps/b.bsp", "maps/a.bsp"]), Some("b".to_string()));
    assert_eq!(name(&["readme.txt", "map.bsp.bak", "bsp"]), None);
    assert_eq!(name(&[]), None);
}

#[test]
fn a_file_called_just_by_the_extension_keeps_its_name() {
    assert_eq!(name(&[".bsp"]), Some(".bsp".to_string()));
    assert_eq!(name(&["maps/.bsp"]), Some(".bsp".to_string()));
    assert_eq!(name(&["..bsp"]), Some(".".to_string()));
}

#[test]
fn map_names_agree_with_the_platform() {
    for p in ["de_dust.bsp", "maps/de_dust.bsp", "/x/y.z.BSP", ".bsp", "a/.bsp", "..bsp", "m/a b.bsp", "\u{e9}t\u{e9}.bsp"] {
        let expected = std::path::Path::new(p)
            .file_stem()
            .map(|s| s.to_string_lossy().to_string());
        assert!(p.to_lowercase().ends_with(".bsp"));
        assert_eq!(name(&[p]), expected, "{:?}", p);
    }
    for p in ["de_dust.bs", "maps/de_dust.bsp/", "bsp", "x.bspx", "\u{130}.bs\u{130}"] {
        assert!(!p.to_lowercase().ends_with(".bsp"));
        assert_eq!(name(&[p]), None, "{:?}", p);
    }
}

#[test]
fn the_list_of_maps_has_a_line_for_each_record_with_a_map() {
    let mut store = MetadataStore::new();
    store.upsert("100".to_string(), record(&["maps/de_dust.bsp", "maps/de_dust.nav"]));
    store.upsert("200".to_string(), record(&["readme.txt"]));
    store.upsert("300".to_string(), record(&["x.txt", "aim_map.BSP"]));
    assert_eq!(
        workshop_maps_content(&store),
        "\"WorkshopMaps\"\n{\n\t\"de_dust\"\t\t\"100\"\n\t\"aim_map\"\t\t\"300\"\n}\n"
    );
}

#[test]
fn the_list_of_maps_of_an_empty_store_is_just_the_frame() {
    assert_eq!(workshop_maps_content(&MetadataStore::new()), "\"WorkshopMaps\"\n{\n}\n");
}

#[test]
fn list_lines_put_the_id_in_a_column_of_twelve() {
    assert_eq!(list_line("100", &record(&["maps/de_dust.bsp"])), "100          de_dust");
    assert_eq!(list_line("100", &record(&["readme.txt"])), "100          no_map");
    assert_eq!(list_line("100", &record(&["maps/DE_DUST.BSP"])), "100          no_map");
    assert_eq!(list_line("123456789012", &record(&["a.bsp"])), "123456789012 a");
    assert_eq!(list_line("1234567890123", &record(&["a.bsp"])), "1234567890123 a");
    assert_eq!(list_line("", &record(&[])), "             no_map");
    for id in ["1", "12345678901", "\u{e9}\u{e9}", "1234567890123456"] {
        assert_eq!(list_line(id, &record(&["m.bsp"])), format!("{:<12} {}", id, "m"));
    }
}
