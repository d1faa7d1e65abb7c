use game_library::repair::{location_label, next_action, shortcut_outcome, RepairAction};
use game_library::shortcut::{file_name, file_stem, icon_url, is_shortcut_file, plan_from_parts, plan_shortcut};
use game_library::stager::{
    game_dir, rename_outcome, restored_names, revert_step, stage_step, staged_name, sweep_steps,
    unstaged_name, StageError,
};

const CDN: &str = "https://cdn.cloudflare.steamstatic.com/steamcommunity/public/images/apps/";

#[test]
fn shortcut_example_url() {
    let plan = plan_shortcut("URL=steam://rungameid/440\nIconFile=C:\\icons\\deadbeef01.ico").unwrap();
    assert_eq!(plan.game_id, "440");
    assert_eq!(plan.icon_file_name, "deadbeef01.ico");
    assert_eq!(
        plan.icon_url,
        "https://cdn.cloudflare.steamstatic.com/steamcommunity/public/images/apps/440/deadbeef01.ico"
    );
}

#[test]
fn shortcut_icon_path_is_trimmed() {
    let plan = plan_shortcut("[InternetShortcut]\r\nURL=steam://rungameid/70\r\nIconFile=  abc123.ico\r\n").unwrap();
    assert_eq!(plan.icon_file_name, "abc123.ico");
    assert_eq!(plan.icon_url, format!("{}70/abc123.ico", CDN));
}

#[test]
fn shortcut_without_game_line_fails() {
    let err = plan_shortcut("URL=https://example.com\nIconFile=C:\\x\\abc.ico").unwrap_err();
    assert_eq!(err, "Not a Steam game shortcut");
}

#[test]
fn shortcut_without_icon_fails() {
    assert_eq!(plan_shortcut("URL=steam://rungameid/5\n").unwrap_err(), "No icon path found");
}

#[test]
fn shortcut_without_hash_fails() {
    let err = plan_shortcut("URL=steam://rungameid/5\nIconFile=C:\\x\\ZZZ.ico").unwrap_err();
    assert_eq!(err, "Could not extract icon hash");
}

#[test]
fn plan_parts_error_order() {
    assert_eq!(plan_from_parts(None, None, None).unwrap_err(), "Not a Steam game shortcut");
    assert_eq!(
        plan_from_parts(Some("1".to_string()), Some("C:\\icons\\".to_string()), Some("ab".to_string()))
            .unwrap_err(),
        "Could not extract icon filename"
    );
    let p = plan_from_parts(Some("9".to_string()), Some("/i/ab.ico".to_string()), Some("ab".to_string()))
        .unwrap();
    assert_eq!(p.icon_url, format!("{}9/ab.ico", CDN));
}

#[test]
fn icon_url_formula() {
    assert_eq!(icon_url("10", "ff"), format!("{}10/ff.ico", CDN));
}

#[test]
fn file_names_and_stems() {
    assert_eq!(file_name("C:\\a\\b.ico"), Some("b.ico".to_string()));
    assert_eq!(file_name("/a/b/"), None);
    assert_eq!(file_name("plain"), Some("plain".to_string()));
    assert_eq!(file_stem("Portal 2.url"), "Portal 2");
    assert_eq!(file_stem(".url"), ".url");
    assert_eq!(file_stem("a.b.url"), "a.b");
}

#[test]
fn shortcut_file_extensions() {
    assert!(is_shortcut_file("Game.url"));
    assert!(is_shortcut_file("Game.URL"));
    assert!(is_shortcut_file("Game.uRl"));
    assert!(!is_shortcut_file("Game.lnk"));
    assert!(!is_shortcut_file(".url"));
    assert!(!is_shortcut_file("Game.urls"));
}

#[test]
fn cached_icon_skips_fetch_and_succeeds() {
    let plan = plan_shortcut("URL=steam://rungameid/440\nIconFile=C:\\i\\abc123.ico").unwrap();
    assert!(matches!(next_action(&plan, true), RepairAction::UseCached));
    match next_action(&plan, false) {
        RepairAction::Download { url, cache_file } => {
            assert_eq!(url, format!("{}440/abc123.ico", CDN));
            assert_eq!(cache_file, "abc123.ico");
        }
        RepairAction::UseCached => panic!("cold cache must download"),
    }
    let fix = shortcut_outcome("Team Fortress 2.url", "Desktop", Ok(plan), Ok(()));
    assert!(fix.success);
    assert_eq!(fix.name, "Team Fortress 2");
    assert_eq!(fix.game_id, "440");
    assert_eq!(fix.icon_url, format!("{}440/abc123.ico", CDN));
    assert_eq!(fix.location, "Desktop");
    assert_eq!(fix.error, None);
}

#[test]
fn failed_shortcut_is_reported_and_next_one_still_processed() {
    let files = [
        ("Broken.url", "URL=https://example.com\nIconFile=C:\\x\\abc.ico"),
        ("Good.url", "URL=steam://rungameid/20\nIconFile=C:\\x\\0a0b.ico"),
    ];
    let mut fixes = Vec::new();
    for (name, content) in files.iter() {
        fixes.push(shortcut_outcome(name, "Programs", plan_shortcut(content), Ok(())));
    }
    assert_eq!(fixes.len(), 2);
    assert!(!fixes[0].success);
    assert_eq!(fixes[0].name, "Broken.url");
    assert_eq!(fixes[0].game_id, "");
    assert!(!fixes[0].error.as_ref().unwrap().is_empty());
    assert!(fixes[1].success);
    assert_eq!(fixes[1].game_id, "20");
}

#[test]
fn failed_download_is_reported() {
    let plan = plan_shortcut("URL=steam://rungameid/1\nIconFile=/x/ab.ico").unwrap();
    let fix = shortcut_outcome("G.url", "Desktop", Ok(plan), Err("HTTP error: 404".to_string()));
    assert!(!fix.success);
    assert_eq!(fix.name, "G.url");
    assert_eq!(fix.icon_url, "");
    assert_eq!(fix.error, Some("HTTP error: 404".to_string()));
}

#[test]
fn location_labels() {
    assert_eq!(location_label("C:\\Users\\u\\Desktop"), "Desktop");
    assert_eq!(location_label("/"), "Unknown");
}

#[test]
fn stage_then_revert_round_trip() {
    let roots = vec!["/a/steamapps".to_string(), "/b/steamapps".to_string()];
    let stage = stage_step(&roots, &vec![false, true], "Portal").unwrap();
    assert_eq!(stage.from, "/b/steamapps/common/Portal");
    assert_eq!(stage.to, "/b/steamapps/common/Portal_temp_rename");
    let name = rename_outcome(stage, Ok(())).unwrap();
    assert_eq!(name, "Portal_temp_rename");
    let revert = revert_step(&roots, &vec![false, true], &name).unwrap();
    assert_eq!(revert.from, "/b/steamapps/common/Portal_temp_rename");
    assert_eq!(revert.to, "/b/steamapps/common/Portal");
    assert_eq!(revert.name, "Portal");
    assert_eq!(game_dir("/b/steamapps", "Portal"), "/b/steamapps/common/Portal");
}

#[test]
fn stage_first_root_wins_and_missing_is_not_found() {
    let roots = vec!["/a".to_string(), "/b".to_string()];
    let s = stage_step(&roots, &vec![true, true], "G").unwrap();
    assert_eq!(s.from, "/a/common/G");
    assert_eq!(stage_step(&roots, &vec![false, false], "G").unwrap_err(), StageError::NotFound);
    assert_eq!(revert_step(&roots, &vec![false, false], "G_temp_rename").unwrap_err(), StageError::NotFound);
}

#[test]
fn rename_failure_is_reported() {
    let roots = vec!["/a".to_string()];
    let s = stage_step(&roots, &vec![true], "G").unwrap();
    assert_eq!(
        rename_outcome(s, Err("denied".to_string())).unwrap_err(),
        StageError::RenameError("denied".to_string())
    );
}

#[test]
fn staged_names_strip_suffix_once() {
    assert_eq!(staged_name("Game"), "Game_temp_rename");
    assert_eq!(unstaged_name("Game_temp_rename"), "Game");
    assert_eq!(unstaged_name("Game"), "Game");
    assert_eq!(unstaged_name(&staged_name("X_temp_rename")), "X_temp_rename");
}

#[test]
fn sweep_restores_only_staged_entries() {
    let entries = vec![
        "A_temp_rename".to_string(),
        "B".to_string(),
        "C_temp_rename".to_string(),
        "D_temp_rename".to_string(),
    ];
    let steps = sweep_steps("/lib/common", &entries);
    assert_eq!(steps.len(), 3);
    assert_eq!(steps[0].from, "/lib/common/A_temp_rename");
    assert_eq!(steps[0].to, "/lib/common/A");
    assert_eq!(steps[1].name, "C");
    let restored = restored_names(&steps, &vec![true, false, true]);
    assert_eq!(restored, vec!["A".to_string(), "D".to_string()]);
}
