use godot_nvm::dashboard::{Action, ConfirmAction, Dashboard, ResolvedImport, SaveReason, Screen, ValidationPurpose, EXIT_CLOSE_SHELL};
use godot_nvm::forms::{CreateForm, ExistingForm, FormError};
use godot_nvm::model::{AppState, ProjectRecord, Renderer};
use godot_nvm::nix::Validation;
use godot_nvm::registry::FoundProject;
use godot_nvm::model::ProjectMetadata;
use godot_nvm::workflow::{SelectionError, SettingsError};

fn dashboard() -> Dashboard {
    let (d, actions) = Dashboard::new(AppState::new());
    assert!(matches!(actions.as_slice(), [Action::RefreshReleases { force: false }]));
    d
}

fn with_releases(mut d: Dashboard) -> Dashboard {
    d.releases_loaded(Ok(vec!["4.7.2-stable".to_string(), "4.7.1-stable".to_string(), "4.6-stable".to_string()]));
    d
}

fn valid(version: &str) -> Validation {
    Validation { version: version.to_string() }
}

#[test]
fn a_new_dashboard_is_ready_and_fetches_releases() {
    let d = dashboard();
    assert_eq!(d.status, "Ready");
    assert!(matches!(d.screen, Screen::Dashboard));
    assert!(!d.should_quit);
    assert_eq!(d.exit_code, 0);
}

#[test]
fn a_failed_release_refresh_is_remembered() {
    let mut d = dashboard();
    d.releases_loaded(Err("offline".to_string()));
    assert_eq!(d.release_error.as_deref(), Some("offline"));
    assert!(d.releases.is_empty());
}

#[test]
fn importing_a_directory_without_a_flake_opens_the_form() {
    let mut d = with_releases(dashboard());
    let actions = d.queue_imports(vec!["/p/game".to_string()]);
    assert!(matches!(actions.as_slice(), [Action::ResolveImport { path }] if path == "/p/game"));
    let actions = d.import_resolved(
        "/p/game".to_string(),
        Ok(ResolvedImport { path: "/p/game".to_string(), has_flake: false, version_hint: Some("4.7".to_string()) }),
    );
    assert!(actions.is_empty());
    match &d.screen {
        Screen::ExistingForm(f) => {
            assert_eq!(f.path, "/p/game");
            assert_eq!(f.version, "4.7.2-stable");
            assert_eq!(f.field, 0);
            assert!(!f.replace_existing);
        }
        other => panic!("unexpected screen {other:?}"),
    }
}

#[test]
fn importing_a_flake_lists_its_shells_then_registers_the_validated_one() {
    let mut d = dashboard();
    d.queue_imports(vec!["/p/a".to_string()]);
    let actions = d.import_resolved(
        "/p/a".to_string(),
        Ok(ResolvedImport { path: "/p/a".to_string(), has_flake: true, version_hint: None }),
    );
    assert!(matches!(actions.as_slice(), [Action::EnumerateShells { path }] if path == "/p/a"));
    assert!(matches!(&d.screen, Screen::Busy { message } if message == "Inspecting Nix dev shells in /p/a…"));
    d.shells_listed("/p/a".to_string(), Ok(vec!["default".to_string(), "tools".to_string()]));
    assert!(matches!(&d.screen, Screen::ShellChoice { selected: 0, .. }));
    let actions = d.validate_shell("/p/a".to_string(), "tools".to_string());
    assert!(matches!(&actions[..], [Action::ValidateShell { shell, purpose: ValidationPurpose::Import, .. }] if shell == "tools"));
    assert!(matches!(&d.screen, Screen::Busy { message } if message == "Validating tools in /p/a…"));
    let actions = d.validated(7, "/p/a".to_string(), "tools".to_string(), ValidationPurpose::Import, Ok(valid("4.7.1.stable")));
    assert!(matches!(&actions[..], [Action::Save { reason: SaveReason::Registration }, Action::RebuildImages]));
    assert_eq!(d.status, "Registered /p/a");
    assert!(matches!(d.screen, Screen::Dashboard));
    assert_eq!(d.state.projects.len(), 1);
    let p = &d.state.projects[0];
    assert_eq!((p.id, p.path.as_str(), p.dev_shell.as_str()), (7, "/p/a", "tools"));
    assert_eq!(p.verified_version.as_deref(), Some("4.7.1.stable"));
    assert!(p.diagnostic.is_none());
}

#[test]
fn a_flake_without_shells_or_working_godot_is_not_registered() {
    let mut d = dashboard();
    d.shells_listed("/p/a".to_string(), Ok(Vec::new()));
    assert!(matches!(&d.screen, Screen::InvalidFlake { diagnostic, selected: 0, .. } if diagnostic == "flake exposes no dev shell for this system"));
    let actions = d.validated(1, "/p/a".to_string(), "default".to_string(), ValidationPurpose::Import, Err("no godot".to_string()));
    assert!(actions.is_empty());
    assert!(matches!(&d.screen, Screen::InvalidFlake { diagnostic, .. } if diagnostic == "no godot"));
    assert!(d.state.projects.is_empty());
}

#[test]
fn a_failing_revalidation_marks_the_project_broken() {
    let mut d = dashboard();
    d.state.projects.push(ProjectRecord::new(3, "/p/a".to_string()));
    d.state.projects[0].verified_version = Some("4.6".to_string());
    let actions = d.validated(99, "/p/a".to_string(), "default".to_string(), ValidationPurpose::Revalidate, Err("broken".to_string()));
    assert_eq!(actions.len(), 2);
    assert_eq!(d.status, "Registered /p/a as broken");
    assert_eq!(d.state.projects.len(), 1);
    assert_eq!(d.state.projects[0].id, 3);
    assert_eq!(d.state.projects[0].diagnostic.as_deref(), Some("broken"));
    assert!(d.state.projects[0].verified_version.is_none());
}

#[test]
fn unresolvable_and_known_directories_are_skipped() {
    let mut d = dashboard();
    d.state.projects.push(ProjectRecord::new(1, "/p/known".to_string()));
    d.queue_imports(vec!["/p/missing".to_string(), "/p/known".to_string()]);
    let actions = d.import_resolved("/p/missing".to_string(), Err("not found".to_string()));
    assert_eq!(d.status, "Skipped /p/missing: not found");
    assert!(matches!(&actions[..], [Action::ResolveImport { path }] if path == "/p/known"));
    let actions = d.import_resolved(
        "/p/known".to_string(),
        Ok(ResolvedImport { path: "/p/known".to_string(), has_flake: true, version_hint: None }),
    );
    assert_eq!(d.status, "/p/known is already registered");
    assert!(matches!(&actions[..], [Action::RebuildImages]));
    assert!(matches!(d.screen, Screen::Dashboard));
}

#[test]
fn generated_flakes_report_their_backup() {
    let mut d = dashboard();
    let actions = d.generated_existing(5, "/p/a".to_string(), Ok((valid("4.7"), Some("/p/a/.godot-nvm-backup-1".to_string()))));
    assert_eq!(actions.len(), 2);
    assert_eq!(d.status, "Registered project; previous flake backed up to /p/a/.godot-nvm-backup-1");
    assert_eq!(d.state.projects[0].dev_shell, "default");
    let mut d = dashboard();
    d.generated_existing(5, "/p/a".to_string(), Err("download failed".to_string()));
    assert_eq!(d.status, "Could not generate flake for /p/a: download failed");
    assert!(d.state.projects.is_empty());
}

#[test]
fn created_projects_are_registered() {
    let mut d = dashboard();
    d.created(8, Ok(("/p/new".to_string(), valid("4.7"))));
    assert_eq!(d.status, "Project created and registered");
    assert_eq!(d.state.projects[0].path, "/p/new");
    let mut d = dashboard();
    let actions = d.created(8, Err("disk full".to_string()));
    assert!(actions.is_empty());
    assert_eq!(d.status, "Project creation failed: disk full");
}

#[test]
fn a_backup_report_outlasts_the_imports_that_follow() {
    let mut d = dashboard();
    d.pending_imports = vec!["/p/missing".to_string(), "/p/next".to_string()];
    let backup = "Registered project; previous flake backed up to /p/a/flake.nix.bak";
    let actions = d.generated_existing(5, "/p/a".to_string(), Ok((valid("4.7"), Some("/p/a/flake.nix.bak".to_string()))));
    assert!(matches!(&actions[..], [Action::Save { .. }, Action::ResolveImport { path }] if path == "/p/missing"));
    assert_eq!(d.status, backup);
    let actions = d.import_resolved("/p/missing".to_string(), Err("not found".to_string()));
    assert!(matches!(&actions[..], [Action::ResolveImport { path }] if path == "/p/next"));
    assert_eq!(d.status, "Skipped /p/missing: not found");
    let actions = d.import_resolved(
        "/p/next".to_string(),
        Ok(ResolvedImport { path: "/p/next".to_string(), has_flake: false, version_hint: None }),
    );
    assert!(actions.is_empty());
    assert!(matches!(&d.screen, Screen::ExistingForm(f) if f.path == "/p/next"));
    assert_eq!(d.status, backup);
    assert!(d.held_status.is_none());
}

#[test]
fn a_creation_report_outlasts_a_skipped_import() {
    let mut d = dashboard();
    d.pending_imports = vec!["/p/missing".to_string()];
    let actions = d.created(8, Ok(("/p/new".to_string(), valid("4.7"))));
    assert!(matches!(&actions[..], [Action::Save { .. }, Action::ResolveImport { .. }]));
    let actions = d.import_resolved("/p/missing".to_string(), Err("not found".to_string()));
    assert!(matches!(&actions[..], [Action::RebuildImages]));
    assert_eq!(d.status, "Project created and registered");
    assert!(d.held_status.is_none());
}

#[test]
fn a_plain_registration_leaves_the_last_skip_shown() {
    let mut d = dashboard();
    d.pending_imports = vec!["/p/missing".to_string()];
    d.generated_existing(5, "/p/a".to_string(), Ok((valid("4.7"), None)));
    assert_eq!(d.status, "Registered /p/a");
    assert!(d.held_status.is_none());
    d.import_resolved("/p/missing".to_string(), Err("not found".to_string()));
    assert_eq!(d.status, "Skipped /p/missing: not found");
}

fn existing_form(version: &str, tools: &str, replace: bool) -> ExistingForm {
    ExistingForm { path: "/p/a".to_string(), version: version.to_string(), tools: tools.to_string(), field: 1, replace_existing: replace }
}

#[test]
fn the_flake_form_summarises_what_will_happen() {
    let mut d = dashboard();
    d.confirm_existing(existing_form("4.7.1-stable", "git, blender", false)).unwrap();
    match &d.screen {
        Screen::Confirm { action: ConfirmAction::GenerateExisting { tools, replace_existing, .. }, summary } => {
            assert_eq!(tools, &vec!["git".to_string(), "blender".to_string()]);
            assert!(!replace_existing);
            assert_eq!(
                summary,
                "Add a generated flake for /p/a\nGodot: 4.7.1-stable\nExtra tools: git, blender\n.envrc: create when absent\n\nNo existing file will be overwritten."
            );
        }
        other => panic!("unexpected screen {other:?}"),
    }
    let mut d = dashboard();
    d.state.settings.create_envrc = false;
    d.confirm_existing(existing_form("4.7.1-stable", "", true)).unwrap();
    assert!(matches!(&d.screen, Screen::Confirm { summary, .. } if summary == "Replace a generated flake for /p/a\nGodot: 4.7.1-stable\nExtra tools: none\n.envrc: disabled\n\nThe existing flake.nix and flake.lock will be moved to a timestamped backup."));
}

#[test]
fn a_refused_flake_form_says_why() {
    let mut d = dashboard();
    assert_eq!(d.confirm_existing(existing_form("4.7", "", false)), Err(FormError::InvalidVersion));
    assert_eq!(d.status, "enter an exact official stable tag, for example 4.7.1-stable");
    assert_eq!(d.confirm_existing(existing_form("4.7.1-stable", "a..b", false)), Err(FormError::InvalidTools));
    assert!(matches!(d.screen, Screen::Dashboard));
}

fn create_form(name: &str) -> CreateForm {
    CreateForm {
        name: name.to_string(),
        parent: "  /home/me/games ".to_string(),
        version: "4.7.1-stable".to_string(),
        renderer_index: 2,
        git_metadata: false,
        tools: "git".to_string(),
        field: 5,
    }
}

#[test]
fn creating_a_project_resolves_its_parent_then_confirms() {
    let mut d = dashboard();
    assert_eq!(d.confirm_create(create_form("   ")).unwrap_err(), FormError::NameRequired);
    assert_eq!(d.status, "project name is required");
    let actions = d.confirm_create(create_form(" My Game ")).unwrap();
    assert!(matches!(&actions[..], [Action::ResolveParent { parent, .. }] if parent == "/home/me/games"));
    assert_eq!(
        d.parent_resolved(create_form(" My Game "), Err("No such file or directory (os error 2)".to_string())),
        Err(FormError::ParentMissing)
    );
    assert_eq!(d.status, "project parent directory does not exist: No such file or directory (os error 2)");
    d.parent_resolved(create_form(" My Game "), Ok("/home/me/games".to_string())).unwrap();
    match &d.screen {
        Screen::Confirm { action: ConfirmAction::Create(spec), summary } => {
            assert_eq!(spec.name, "My Game");
            assert_eq!(spec.renderer, Renderer::Compatibility);
            assert_eq!(spec.extra_tools, vec!["git".to_string()]);
            assert_eq!(
                summary,
                "Create My Game\nLocation: /home/me/games\nGodot: 4.7.1-stable\nRenderer: Compatibility\nGit metadata: false\n.envrc: true"
            );
        }
        other => panic!("unexpected screen {other:?}"),
    }
    let actions = match std::mem::replace(&mut d.screen, Screen::Help) {
        Screen::Confirm { action, .. } => d.execute_confirm(action),
        _ => unreachable!(),
    };
    assert!(matches!(&actions[..], [Action::CreateProject { .. }]));
    assert!(matches!(&d.screen, Screen::Busy { message } if message == "Creating My Game with Godot 4.7.1-stable…"));
}

#[test]
fn unregistering_keeps_files_and_reports_the_save() {
    let mut d = dashboard();
    d.state.projects.push(ProjectRecord::new(1, "/p/a".to_string()));
    d.state.projects.push(ProjectRecord::new(2, "/p/b".to_string()));
    d.selected = 1;
    let names = vec!["a".to_string(), "b".to_string()];
    d.confirm_unregister_selected(&names).unwrap();
    assert!(matches!(&d.screen, Screen::Confirm { action: ConfirmAction::Unregister { id: 2 }, summary } if summary == "Unregister /p/b?\n\nNo project files will be deleted."));
    let actions = d.execute_confirm(ConfirmAction::Unregister { id: 2 });
    assert_eq!(d.state.projects.len(), 1);
    assert_eq!(d.selected, 0);
    assert!(matches!(&actions[..], [Action::ForgetImage { id: 2 }, Action::Save { reason: SaveReason::Unregister { path } }] if path == "/p/b"));
    d.saved(SaveReason::Unregister { path: "/p/b".to_string() }, Ok(()));
    assert_eq!(d.status, "Unregistered /p/b (project files were not touched)");
    d.saved(SaveReason::Unregister { path: "/p/b".to_string() }, Err("read-only".to_string()));
    assert_eq!(d.status, "Could not save registry: read-only");
}

#[test]
fn declining_a_flake_skips_the_import() {
    let mut d = dashboard();
    let action = ConfirmAction::GenerateExisting { path: "/p/a".to_string(), version: "4.7.1-stable".to_string(), tools: Vec::new(), replace_existing: false };
    let actions = d.cancel_confirm(&action);
    assert_eq!(d.status, "Skipped /p/a");
    assert!(matches!(&actions[..], [Action::RebuildImages]));
    let actions = d.cancel_confirm(&ConfirmAction::Unregister { id: 1 });
    assert!(actions.is_empty());
    assert_eq!(d.status, "Cancelled");
}

#[test]
fn launching_needs_a_ready_selected_project() {
    let mut d = dashboard();
    let names: Vec<String> = Vec::new();
    assert_eq!(d.launch_selected(&names, &Vec::new(), false).unwrap_err(), SelectionError::NoProjectSelected);
    assert_eq!(d.status, "no project selected");
    d.state.projects.push(ProjectRecord::new(4, "/p/a".to_string()));
    let names = vec!["a".to_string()];
    assert_eq!(d.launch_selected(&names, &vec![true], false).unwrap_err(), SelectionError::NotReady);
    assert_eq!(d.status, "project is not ready; revalidate it first");
    d.state.projects[0].verified_version = Some("4.7".to_string());
    assert_eq!(d.launch_selected(&names, &vec![false], true).unwrap_err(), SelectionError::NotReady);
    let actions = d.launch_selected(&names, &vec![true], true).unwrap();
    assert!(matches!(&actions[..], [Action::Launch { id: 4, close_shell: true, shell, .. }] if shell == "default"));
}

#[test]
fn a_launch_marks_the_project_opened_and_may_close_the_shell() {
    let mut d = dashboard();
    d.state.projects.push(ProjectRecord::new(4, "/p/a".to_string()));
    let actions = d.launched(4, true, Ok("/logs/4/x.log".to_string()), 1_700_000_000_000_000_000);
    assert_eq!(d.status, "Launching /p/a (log: /logs/4/x.log)");
    assert_eq!(d.state.projects[0].last_opened_at, Some(1_700_000_000_000_000_000));
    assert!(matches!(&actions[..], [Action::Save { reason: SaveReason::Launch { close_shell: true } }]));
    d.saved(SaveReason::Launch { close_shell: true }, Ok(()));
    assert!(d.should_quit);
    assert_eq!(d.exit_code, EXIT_CLOSE_SHELL);
    let mut d = dashboard();
    d.launched(4, false, Err("could not start the detached Godot process".to_string()), 0);
    assert_eq!(d.status, "could not start the detached Godot process");
    d.launch_exited_early("exit status: 1");
    assert_eq!(d.status, "A Godot launch exited early with exit status: 1; see its log");
}

#[test]
fn settings_resolve_the_directory_before_saving() {
    let mut d = dashboard();
    let actions = d.save_settings("   ".to_string(), false);
    assert!(matches!(&actions[..], [Action::Save { reason: SaveReason::Settings }]));
    assert!(d.state.settings.default_projects_dir.is_none());
    assert!(!d.state.settings.create_envrc);
    let actions = d.save_settings(" ~/games ".to_string(), true);
    assert!(matches!(&actions[..], [Action::ResolveSettingsDirectory { directory, create_envrc: true }] if directory == "~/games"));
    assert_eq!(d.settings_directory_resolved(true, Err("gone".to_string())).unwrap_err(), SettingsError::DirectoryMissing);
    assert_eq!(d.status, "default directory does not exist: gone");
    assert_eq!(d.settings_directory_resolved(true, Ok(("/f".to_string(), false))).unwrap_err(), SettingsError::NotADirectory);
    assert_eq!(d.status, "default projects path is not a directory");
    d.settings_directory_resolved(true, Ok(("/home/me/games".to_string(), true))).unwrap();
    assert_eq!(d.state.settings.default_projects_dir.as_deref(), Some("/home/me/games"));
    d.saved(SaveReason::Settings, Ok(()));
    assert_eq!(d.status, "Settings saved");
}

#[test]
fn scans_show_sorted_candidates() {
    let mut d = dashboard();
    let found = vec![FoundProject {
        path: "/r/a".to_string(),
        metadata: ProjectMetadata { name: "A".to_string(), icon: None, version_hint: None },
        has_flake: false,
    }];
    d.scanned("/r".to_string(), Ok(found));
    assert!(matches!(&d.screen, Screen::ScanResults { root, candidates, cursor: 0 } if root == "/r" && candidates.len() == 1));
    d.scanned("/r".to_string(), Err("could not scan /r".to_string()));
    assert_eq!(d.status, "could not scan /r");
}

#[test]
fn replacing_an_unusable_flake_opens_the_form_in_replace_mode() {
    let mut d = with_releases(dashboard());
    let actions = d.resolve_invalid_flake("/p/a".to_string(), true, Some("4.6".to_string()));
    assert!(actions.is_empty());
    assert!(matches!(&d.screen, Screen::ExistingForm(f) if f.replace_existing && f.version == "4.6-stable"));
    d.resolve_invalid_flake("/p/a".to_string(), false, None);
    assert_eq!(d.status, "Skipped /p/a");
}

#[test]
fn a_new_release_list_completes_open_forms() {
    let mut d = dashboard();
    d.open_new_form(Some("/home/me".to_string()));
    d = with_releases(d);
    assert!(matches!(&d.screen, Screen::CreateForm(f) if f.version == "4.7.2-stable" && f.parent == "/home/me"));
    let mut d = dashboard();
    d.resolve_invalid_flake("/p/a".to_string(), true, Some("4.7".to_string()));
    d = with_releases(d);
    assert!(matches!(&d.screen, Screen::ExistingForm(f) if f.version == "4.7.2-stable"));
}

#[test]
fn releases_can_be_refreshed_on_demand() {
    let d = dashboard();
    assert!(matches!(d.refresh_releases(true).as_slice(), [Action::RefreshReleases { force: true }]));
}
