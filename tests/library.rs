use game_library::catalog::{build_catalog, GameCatalog};
use game_library::keyvalue::{extract_value, join};
use game_library::locator::{descriptor_roots, library_roots};
use game_library::manifest::{
    is_manifest_file, parse_manifest, read_manifest_fields, GameRecord, GameStatus, ManifestError,
    ManifestFields,
};

fn record(name: &str, id: &str, path: &str) -> GameRecord {
    GameRecord {
        name: name.to_string(),
        app_id: id.to_string(),
        path: path.to_string(),
        status: GameStatus::Ready,
    }
}

#[test]
fn extract_value_collapses_escaped_backslashes() {
    assert_eq!(extract_value("\t\"path\"\t\t\"D:\\\\Games\""), Some("D:\\Games".to_string()));
}

#[test]
fn extract_value_stops_at_fourth_quote() {
    assert_eq!(extract_value("\"name\" \"Portal 2\" trailing"), Some("Portal 2".to_string()));
}

#[test]
fn extract_value_without_value_is_none() {
    assert_eq!(extract_value("\"path\""), None);
    assert_eq!(extract_value("no quotes at all"), None);
    assert_eq!(extract_value(""), None);
}

#[test]
fn extract_value_unterminated_value_runs_to_line_end() {
    assert_eq!(extract_value("\"key\" \"open"), Some("open".to_string()));
}

#[test]
fn join_uses_the_base_separator() {
    assert_eq!(join("C:\\SteamLibrary", "steamapps"), "C:\\SteamLibrary\\steamapps");
    assert_eq!(join("/home/u/lib", "steamapps"), "/home/u/lib/steamapps");
    assert_eq!(join("/home/u/lib/", "common"), "/home/u/lib/common");
    assert_eq!(join("", "x"), "x");
}

#[test]
fn locator_example_descriptor() {
    let root = "C:\\SteamLibrary\\steamapps";
    let descriptor = "\"libraryfolders\"\n{\n\t\"0\"\n\t{\n\t\t\"path\"\t\t\"D:\\\\Games\"\n\t}\n}\n";
    let candidates = descriptor_roots(descriptor);
    assert_eq!(candidates, vec!["D:\\Games\\steamapps".to_string()]);
    let roots = library_roots(root, &candidates, &vec![true]);
    assert_eq!(roots, vec![root.to_string(), "D:\\Games\\steamapps".to_string()]);
}

#[test]
fn locator_keeps_root_when_descriptor_absent_or_empty() {
    let root = "/lib/steamapps";
    assert_eq!(library_roots(root, &vec![], &vec![]), vec![root.to_string()]);
    let none = descriptor_roots("");
    assert!(none.is_empty());
    assert_eq!(library_roots(root, &none, &vec![]), vec![root.to_string()]);
}

#[test]
fn locator_drops_missing_and_identical_roots() {
    let root = "/a/steamapps";
    let descriptor = "\"path\" \"/a\"\n\"path\" \"/b\"\r\n\"path\" \"\"\n\"path\" \"/c\"\n\"path\" \"/b\"";
    let candidates = descriptor_roots(descriptor);
    assert_eq!(
        candidates,
        vec![
            "/a/steamapps".to_string(),
            "/b/steamapps".to_string(),
            "/c/steamapps".to_string(),
            "/b/steamapps".to_string()
        ]
    );
    let roots = library_roots(root, &candidates, &vec![true, true, false, true]);
    assert_eq!(
        roots,
        vec!["/a/steamapps".to_string(), "/b/steamapps".to_string(), "/b/steamapps".to_string()]
    );
}

#[test]
fn manifest_fields_are_read() {
    let text = "\"AppState\"\r\n{\r\n\t\"appid\"\t\t\"440\"\r\n\t\"name\"\t\t\"Team Fortress 2\"\r\n\t\"installdir\"\t\t\"Team Fortress 2\"\r\n}\r\n";
    let f = read_manifest_fields(text);
    assert_eq!(f.app_id, "440");
    assert_eq!(f.name, "Team Fortress 2");
    assert_eq!(f.install_dir, "Team Fortress 2");
    let g = parse_manifest(f, true).unwrap();
    assert_eq!(g.app_id, "440");
    assert_eq!(g.name, "Team Fortress 2");
    assert_eq!(g.path, "Team Fortress 2");
    assert_eq!(g.status, GameStatus::Ready);
}

#[test]
fn manifest_last_occurrence_wins() {
    let text = "\"name\" \"First\"\n\"UserConfig\"\n{\n\"name\" \"Second\"\n}\n";
    assert_eq!(read_manifest_fields(text).name, "Second");
}

#[test]
fn manifest_line_with_two_keys_counts_for_appid_only() {
    let text = "\"appid\" \"7\" \"name\" \"x\"\n";
    let f = read_manifest_fields(text);
    assert_eq!(f.app_id, "7");
    assert_eq!(f.name, "");
}

#[test]
fn manifest_missing_field_is_invalid() {
    let text = "\"appid\" \"10\"\n\"installdir\" \"dir\"\n";
    let f = read_manifest_fields(text);
    assert_eq!(parse_manifest(f, true).unwrap_err(), ManifestError::InvalidManifest);
    let empty_dir = ManifestFields {
        app_id: "10".to_string(),
        name: "n".to_string(),
        install_dir: String::new(),
    };
    assert_eq!(parse_manifest(empty_dir, true).unwrap_err(), ManifestError::InvalidManifest);
}

#[test]
fn manifest_missing_directory_is_invalid() {
    let f = ManifestFields {
        app_id: "10".to_string(),
        name: "n".to_string(),
        install_dir: "d".to_string(),
    };
    assert_eq!(parse_manifest(f, false).unwrap_err(), ManifestError::InvalidManifest);
}

#[test]
fn manifest_file_names() {
    assert!(is_manifest_file("appmanifest_440.acf"));
    assert!(!is_manifest_file("appmanifest_440.ACF"));
    assert!(!is_manifest_file("libraryfolders.vdf"));
    assert!(!is_manifest_file("Appmanifest_1.acf"));
}

#[test]
fn catalog_keeps_first_of_duplicate_identifiers() {
    let outcomes = vec![
        Ok(record("A", "1", "a")),
        Err(ManifestError::InvalidManifest),
        Ok(record("B", "2", "b")),
        Ok(record("A again", "1", "a2")),
        Err(ManifestError::ReadError("denied".to_string())),
    ];
    let games = build_catalog(outcomes);
    assert_eq!(games.len(), 2);
    assert_eq!(games[0].name, "A");
    assert_eq!(games[0].path, "a");
    assert_eq!(games[1].app_id, "2");
}

#[test]
fn catalog_insert_reports_duplicates() {
    let mut c = GameCatalog::new();
    assert!(c.insert(record("A", "1", "a")));
    assert!(!c.insert(record("A2", "1", "b")));
    assert!(c.contains_id(&"1".to_string()));
    assert!(!c.contains_id(&"2".to_string()));
    c.add_outcome(Err(ManifestError::InvalidManifest));
    assert_eq!(c.len(), 1);
    let games = c.into_games();
    assert_eq!(games[0].name, "A");
}
