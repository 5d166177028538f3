use godot_nvm::model::{ProjectMetadata, ProjectRecord};
use godot_nvm::paths::{join_path, AppPaths};
use godot_nvm::registry::ScanCandidate;
use godot_nvm::view::{card_status, filter_caption, first_shown_card, flake_label, scan_mark, CardStatus};

#[test]
fn cards_report_missing_ready_and_broken_projects() {
    let mut record = ProjectRecord::new(1, "/p/a".to_string());
    assert_eq!(card_status(&record, false), CardStatus::Missing);
    assert_eq!(card_status(&record, true), CardStatus::Broken);
    record.verified_version = Some("4.7".to_string());
    assert_eq!(card_status(&record, true), CardStatus::Ready);
    record.diagnostic = Some("broken".to_string());
    assert_eq!(card_status(&record, true).label(), "BROKEN");
    assert_eq!(CardStatus::Missing.label(), "MISSING");
}

#[test]
fn the_selected_card_stays_in_view() {
    assert_eq!(first_shown_card(0, 3), 0);
    assert_eq!(first_shown_card(2, 3), 0);
    assert_eq!(first_shown_card(5, 3), 3);
    assert_eq!(first_shown_card(5, 0), 5);
}

#[test]
fn scan_results_mark_their_choice() {
    let mut c = ScanCandidate {
        path: "/r/a".to_string(),
        metadata: ProjectMetadata { name: "a".to_string(), icon: None, version_hint: None },
        has_flake: true,
        selected: true,
        registered: false,
    };
    assert_eq!(scan_mark(&c), "✓");
    c.selected = false;
    assert_eq!(scan_mark(&c), " ");
    c.registered = true;
    assert_eq!(scan_mark(&c), "—");
    assert_eq!(flake_label(false), "needs flake");
}

#[test]
fn the_title_shows_the_filter() {
    assert_eq!(filter_caption(true, "go"), "  Filter: go█");
    assert_eq!(filter_caption(false, "go"), "  Filter: go");
    assert_eq!(filter_caption(false, ""), "");
}

#[test]
fn paths_join_like_the_file_system() {
    assert_eq!(join_path("/home/me", "games"), "/home/me/games");
    assert_eq!(join_path("/home/me/", "games"), "/home/me/games");
    assert_eq!(join_path("/home/me", "/abs"), "/abs");
    assert_eq!(join_path("", "rel"), "rel");
    assert_eq!(join_path("/home/me", ""), "/home/me/");
}

#[test]
fn application_files_live_in_the_xdg_directories() {
    let paths = AppPaths::from_directories("/c/godot-nvm", "/k/godot-nvm", Some("/s/godot-nvm".to_string()), "/d/godot-nvm");
    assert_eq!(paths.config_file, "/c/godot-nvm/state.toml");
    assert_eq!(paths.cache_dir, "/k/godot-nvm");
    assert_eq!(paths.log_dir, "/s/godot-nvm/logs");
    let paths = AppPaths::from_directories("/c", "/k", None, "/d");
    assert_eq!(paths.log_dir, "/d/logs");
}
