use godot_nvm::model::{ProjectMetadata, ProjectRecord};
use godot_nvm::registry::{is_registered, scan_candidates, unregister, upsert, visible_indices, FoundProject};

fn record(id: u128, path: &str) -> ProjectRecord {
    ProjectRecord::new(id, path.to_string())
}

#[test]
fn registering_a_known_directory_replaces_its_registration() {
    let mut projects = vec![record(1, "/p/a"), record(2, "/p/b")];
    projects[1].last_opened_at = Some(42);
    let mut again = record(9, "/p/b");
    again.dev_shell = "tools".to_string();
    again.verified_version = Some("4.7.1.stable".to_string());
    upsert(&mut projects, again);
    assert_eq!(projects.len(), 2);
    assert_eq!(projects[1].id, 2);
    assert_eq!(projects[1].last_opened_at, Some(42));
    assert_eq!(projects[1].dev_shell, "tools");
    assert_eq!(projects[1].verified_version.as_deref(), Some("4.7.1.stable"));
    upsert(&mut projects, record(3, "/p/c"));
    assert_eq!(projects.len(), 3);
    assert!(is_registered(&projects, &"/p/c".to_string()));
    assert!(!is_registered(&projects, &"/p/d".to_string()));
}

#[test]
fn unregistering_removes_only_that_registration() {
    let mut projects = vec![record(1, "/p/a"), record(2, "/p/b")];
    let removed = unregister(&mut projects, 1).unwrap();
    assert_eq!(removed.path, "/p/a");
    assert_eq!(projects.len(), 1);
    assert_eq!(projects[0].id, 2);
    assert!(unregister(&mut projects, 7).is_none());
    assert_eq!(projects.len(), 1);
}

#[test]
fn cards_show_recent_projects_first_then_by_name() {
    let mut projects = vec![record(1, "/p/zeta"), record(2, "/p/alpha"), record(3, "/p/beta"), record(4, "/p/old")];
    projects[2].last_opened_at = Some(100);
    projects[3].last_opened_at = Some(5);
    let names = vec!["Zeta".to_string(), "alpha".to_string(), "Beta".to_string(), "Old".to_string()];
    assert_eq!(visible_indices(&projects, &names, ""), vec![2, 3, 1, 0]);
}

#[test]
fn the_filter_matches_names_and_paths_ignoring_case() {
    let projects = vec![record(1, "/games/Shooter"), record(2, "/p/other")];
    let names = vec!["Blaster".to_string(), "Puzzle".to_string()];
    assert_eq!(visible_indices(&projects, &names, "SHOOT"), vec![0]);
    assert_eq!(visible_indices(&projects, &names, "puz"), vec![1]);
    assert_eq!(visible_indices(&projects, &names, "nothing"), Vec::<usize>::new());
}

fn found(path: &str, name: &str, has_flake: bool) -> FoundProject {
    FoundProject {
        path: path.to_string(),
        metadata: ProjectMetadata { name: name.to_string(), icon: None, version_hint: None },
        has_flake,
    }
}

#[test]
fn scan_results_are_sorted_and_mark_registered_projects() {
    let projects = vec![record(1, "/root/b")];
    let found = vec![found("/root/b", "beta", true), found("/root/a", "Alpha", false)];
    let candidates = scan_candidates(&found, &projects);
    assert_eq!(candidates.len(), 2);
    assert_eq!(candidates[0].path, "/root/a");
    assert!(candidates[0].selected && !candidates[0].registered && !candidates[0].has_flake);
    assert_eq!(candidates[1].path, "/root/b");
    assert!(!candidates[1].selected && candidates[1].registered && candidates[1].has_flake);
}
