use godot_nvm::model::{check_schema, default_shell, AppState, FutureSchema, ProjectRecord, Renderer, Settings, STATE_VERSION};
use godot_nvm::model::ProjectMetadata;
use godot_nvm::registry::{scan_candidates, FoundProject};

#[test]
fn rejects_future_schema() {
    assert_eq!(check_schema(999), Err(FutureSchema { found: 999 }));
    assert_eq!(check_schema(STATE_VERSION), Ok(()));
    assert_eq!(check_schema(0), Ok(()));
}

#[test]
fn a_fresh_registry_is_empty_with_default_settings() {
    let state = AppState::default();
    assert_eq!(state.schema_version, STATE_VERSION);
    assert!(state.settings.create_envrc);
    assert!(state.settings.default_projects_dir.is_none());
    assert!(state.projects.is_empty());
    assert!(Settings::default().create_envrc);
}

#[test]
fn new_registrations_use_the_default_shell_and_are_not_ready() {
    let record = ProjectRecord::new(5, "/p/a".to_string());
    assert_eq!(record.dev_shell, default_shell());
    assert_eq!(record.dev_shell, "default");
    assert!(!record.is_ready(true));
    let mut ready = record.clone();
    ready.verified_version = Some("4.7".to_string());
    assert!(ready.is_ready(true));
    assert!(!ready.is_ready(false));
}

#[test]
fn renderer_choices_follow_the_major_version() {
    assert_eq!(Renderer::choices_for("  3.6-stable"), &[Renderer::Gles3, Renderer::Gles2]);
    assert_eq!(
        Renderer::choices_for("4.7.1-stable"),
        &[Renderer::ForwardPlus, Renderer::Mobile, Renderer::Compatibility]
    );
    assert_eq!(Renderer::ForwardPlus.label(), "Forward+");
    assert_eq!(Renderer::Gles2.label(), "GLES2");
}

fn found(path: &str, has_flake: bool) -> FoundProject {
    FoundProject {
        path: path.to_string(),
        metadata: ProjectMetadata { name: "Game".to_string(), icon: None, version_hint: None },
        has_flake,
    }
}

#[test]
fn scanner_includes_projects_with_and_without_flakes() {
    let candidates = scan_candidates(&vec![found("/r/with-flake", true), found("/r/without-flake", false)], &Vec::new());
    assert_eq!(candidates.len(), 2);
    assert!(candidates.iter().any(|candidate| candidate.has_flake));
    assert!(candidates.iter().any(|candidate| !candidate.has_flake));
    assert!(candidates.iter().all(|candidate| candidate.selected));
}
