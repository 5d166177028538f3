use godot_nvm::dashboard::{Action, ConfirmAction, Dashboard, Screen};
use godot_nvm::forms::{CreateForm, ExistingForm, PathPurpose};
use godot_nvm::keys::{expand_tilde, Key, KeyPress, Surroundings};
use godot_nvm::model::{AppState, ProjectMetadata, ProjectRecord};
use godot_nvm::registry::FoundProject;

fn key(code: Key) -> KeyPress {
    KeyPress { code, ctrl: false, alt: false }
}

fn ch(c: char) -> KeyPress {
    key(Key::Char(c))
}

fn surroundings(d: &Dashboard) -> Surroundings {
    Surroundings {
        names: d.state.projects.iter().map(|p| p.path.rsplit('/').next().unwrap().to_string()).collect(),
        exists: d.state.projects.iter().map(|_| true).collect(),
        current_dir: Some("/work".to_string()),
        home: Some("/home/me".to_string()),
    }
}

fn press(d: &mut Dashboard, k: KeyPress) -> Vec<Action> {
    let env = surroundings(d);
    d.handle_key(k, &env)
}

fn with_projects(n: u128) -> Dashboard {
    let (mut d, _) = Dashboard::new(AppState::new());
    for i in 0..n {
        let mut r = ProjectRecord::new(i, format!("/p/project{i}"));
        r.verified_version = Some("4.7".to_string());
        d.state.projects.push(r);
    }
    d
}

#[test]
fn expands_home_paths() {
    let home = Some("/home/player".to_string());
    assert_eq!(expand_tilde("~/games", &home), "/home/player/games");
    assert_eq!(expand_tilde("~/~/games", &home), "/home/player/games");
    assert_eq!(expand_tilde("~", &home), "/home/player/~");
    assert_eq!(expand_tilde("/srv/games", &home), "/srv/games");
    assert_eq!(expand_tilde("~other/games", &home), "~other/games");
    assert_eq!(expand_tilde("~//abs", &home), "/abs");
    assert_eq!(expand_tilde("~/games", &Some("/home/player/".to_string())), "/home/player/games");
    assert_eq!(expand_tilde("~/games", &None), "~/games");
}

#[test]
fn the_list_moves_within_its_cards() {
    let mut d = with_projects(3);
    press(&mut d, key(Key::Down));
    press(&mut d, ch('j'));
    press(&mut d, ch('j'));
    assert_eq!(d.selected, 2);
    press(&mut d, key(Key::Up));
    assert_eq!(d.selected, 1);
    press(&mut d, key(Key::Home));
    assert_eq!(d.selected, 0);
    press(&mut d, ch('k'));
    assert_eq!(d.selected, 0);
    press(&mut d, key(Key::End));
    assert_eq!(d.selected, 2);
}

#[test]
fn typing_a_filter_selects_the_first_card() {
    let mut d = with_projects(3);
    d.selected = 2;
    press(&mut d, ch('/'));
    assert!(d.filtering);
    press(&mut d, ch('p'));
    press(&mut d, ch('x'));
    press(&mut d, key(Key::Backspace));
    assert_eq!(d.filter, "p");
    assert_eq!(d.selected, 0);
    press(&mut d, key(Key::Enter));
    assert!(!d.filtering);
    assert!(matches!(d.screen, Screen::Dashboard));
}

#[test]
fn open_keys_ask_for_a_launch() {
    let mut d = with_projects(2);
    let actions = press(&mut d, ch('o'));
    assert!(matches!(&actions[..], [Action::Launch { close_shell: false, .. }]));
    let actions = press(&mut d, ch('x'));
    assert!(matches!(&actions[..], [Action::Launch { close_shell: true, .. }]));
    let mut empty = with_projects(0);
    assert!(press(&mut empty, key(Key::Enter)).is_empty());
    assert_eq!(empty.status, "no project selected");
}

#[test]
fn list_keys_open_screens_and_quit() {
    let mut d = with_projects(1);
    press(&mut d, ch('?'));
    assert!(matches!(d.screen, Screen::Help));
    press(&mut d, ch('z'));
    assert!(matches!(d.screen, Screen::Help));
    press(&mut d, key(Key::Esc));
    assert!(matches!(d.screen, Screen::Dashboard));
    press(&mut d, ch(','));
    assert!(matches!(&d.screen, Screen::Settings { field: 0, create_envrc: true, directory } if directory.is_empty()));
    press(&mut d, key(Key::Esc));
    press(&mut d, ch('n'));
    assert!(matches!(&d.screen, Screen::CreateForm(f) if f.parent == "/work" && f.git_metadata));
    press(&mut d, key(Key::Esc));
    let actions = press(&mut d, ch('r'));
    assert!(matches!(&actions[..], [Action::ValidateShell { .. }]));
    assert!(matches!(d.screen, Screen::Busy { .. }));
    d.screen = Screen::Dashboard;
    press(&mut d, ch('q'));
    assert!(d.should_quit);
}

#[test]
fn the_add_menu_opens_a_path_prompt() {
    let mut d = with_projects(0);
    press(&mut d, ch('a'));
    assert!(matches!(d.screen, Screen::AddMenu { selected: 0 }));
    press(&mut d, key(Key::Down));
    press(&mut d, key(Key::Down));
    assert!(matches!(d.screen, Screen::AddMenu { selected: 1 }));
    press(&mut d, key(Key::Enter));
    assert!(matches!(&d.screen, Screen::PathInput { purpose: PathPurpose::Scan, input } if input == "/work"));
}

#[test]
fn the_path_prompt_edits_and_expands() {
    let (mut d, _) = Dashboard::new(AppState::new());
    d.screen = Screen::PathInput { purpose: PathPurpose::Add, input: String::new() };
    for c in "~/g".chars() {
        press(&mut d, ch(c));
    }
    press(&mut d, KeyPress { code: Key::Char('x'), ctrl: true, alt: false });
    assert!(matches!(&d.screen, Screen::PathInput { input, .. } if input == "~/g"));
    let actions = press(&mut d, key(Key::Enter));
    assert!(matches!(&actions[..], [Action::ResolveImport { path }] if path == "/home/me/g"));
    d.screen = Screen::PathInput { purpose: PathPurpose::Scan, input: "~/all".to_string() };
    let actions = press(&mut d, key(Key::Enter));
    assert!(matches!(&actions[..], [Action::Scan { root }] if root == "/home/me/all"));
}

fn found(path: &str, name: &str) -> FoundProject {
    FoundProject {
        path: path.to_string(),
        metadata: ProjectMetadata { name: name.to_string(), icon: None, version_hint: None },
        has_flake: false,
    }
}

#[test]
fn scan_keys_choose_and_register() {
    let (mut d, _) = Dashboard::new(AppState::new());
    d.state.projects.push(ProjectRecord::new(1, "/r/b".to_string()));
    d.scanned("/r".to_string(), Ok(vec![found("/r/a", "a"), found("/r/b", "b"), found("/r/c", "c")]));
    press(&mut d, ch('c'));
    press(&mut d, ch(' '));
    press(&mut d, key(Key::Down));
    press(&mut d, ch(' '));
    press(&mut d, key(Key::Down));
    press(&mut d, key(Key::Down));
    match &d.screen {
        Screen::ScanResults { candidates, cursor, .. } => {
            assert_eq!(*cursor, 2);
            assert_eq!(candidates.iter().map(|c| c.selected).collect::<Vec<_>>(), vec![true, false, false]);
        }
        other => panic!("unexpected screen {other:?}"),
    }
    press(&mut d, ch('a'));
    let actions = press(&mut d, key(Key::Enter));
    assert!(matches!(&actions[..], [Action::ResolveImport { path }] if path == "/r/a"));
    assert_eq!(d.pending_imports, vec!["/r/c".to_string()]);
}

#[test]
fn shell_choice_and_invalid_flake_keys() {
    let (mut d, _) = Dashboard::new(AppState::new());
    d.shells_listed("/p/a".to_string(), Ok(vec!["default".to_string(), "tools".to_string()]));
    press(&mut d, key(Key::Down));
    press(&mut d, key(Key::Down));
    let actions = press(&mut d, key(Key::Enter));
    assert!(matches!(&actions[..], [Action::ValidateShell { shell, .. }] if shell == "tools"));
    d.shells_listed("/p/a".to_string(), Err("bad flake".to_string()));
    let actions = press(&mut d, key(Key::Enter));
    assert_eq!(d.status, "Skipped /p/a");
    assert!(matches!(&actions[..], [Action::RebuildImages]));
    d.shells_listed("/p/a".to_string(), Err("bad flake".to_string()));
    press(&mut d, key(Key::Right));
    let actions = press(&mut d, key(Key::Enter));
    assert!(matches!(&actions[..], [Action::ReplaceFlake { path }] if path == "/p/a"));
}

#[test]
fn the_flake_form_edits_its_fields_and_confirms() {
    let (mut d, _) = Dashboard::new(AppState::new());
    d.screen = Screen::ExistingForm(ExistingForm {
        path: "/p/a".to_string(),
        version: "4.7.1-stabl".to_string(),
        tools: String::new(),
        field: 0,
        replace_existing: false,
    });
    press(&mut d, ch('e'));
    press(&mut d, key(Key::Tab));
    for c in "git".chars() {
        press(&mut d, ch(c));
    }
    assert!(matches!(&d.screen, Screen::ExistingForm(f) if f.version == "4.7.1-stable" && f.tools == "git" && f.field == 1));
    press(&mut d, key(Key::Enter));
    assert!(matches!(&d.screen, Screen::Confirm { action: ConfirmAction::GenerateExisting { .. }, .. }));
    let actions = press(&mut d, ch('y'));
    assert!(matches!(&actions[..], [Action::GenerateExisting { envrc: true, .. }]));
    assert!(matches!(&d.screen, Screen::Busy { message } if message == "Downloading Godot 4.7.1-stable and validating generated flake…"));
}

#[test]
fn the_new_project_form_cycles_fields_and_renderers() {
    let (mut d, _) = Dashboard::new(AppState::new());
    d.screen = Screen::CreateForm(CreateForm {
        name: String::new(),
        parent: "/work".to_string(),
        version: "4.7.1-stable".to_string(),
        renderer_index: 0,
        git_metadata: true,
        tools: String::new(),
        field: 0,
    });
    press(&mut d, ch('G'));
    press(&mut d, key(Key::BackTab));
    assert!(matches!(&d.screen, Screen::CreateForm(f) if f.field == 5 && f.name == "G"));
    press(&mut d, key(Key::Up));
    press(&mut d, ch(' '));
    assert!(matches!(&d.screen, Screen::CreateForm(f) if f.field == 4 && !f.git_metadata));
    press(&mut d, key(Key::Up));
    for _ in 0..5 {
        press(&mut d, key(Key::Right));
    }
    assert!(matches!(&d.screen, Screen::CreateForm(f) if f.renderer_index == 2));
    press(&mut d, key(Key::Up));
    press(&mut d, key(Key::Left));
    assert!(matches!(&d.screen, Screen::CreateForm(f) if f.renderer_index == 0 && f.field == 2));
    press(&mut d, key(Key::Enter));
    press(&mut d, key(Key::Enter));
    press(&mut d, key(Key::Enter));
    assert!(matches!(&d.screen, Screen::CreateForm(f) if f.field == 5));
    let actions = press(&mut d, key(Key::Enter));
    assert!(matches!(&actions[..], [Action::ResolveParent { parent, .. }] if parent == "/work"));
}

#[test]
fn settings_keys_toggle_and_save() {
    let (mut d, _) = Dashboard::new(AppState::new());
    d.open_settings();
    press(&mut d, ch('/'));
    press(&mut d, ch('x'));
    press(&mut d, key(Key::Enter));
    press(&mut d, ch(' '));
    assert!(matches!(&d.screen, Screen::Settings { directory, field: 1, create_envrc: false } if directory == "/x"));
    let actions = press(&mut d, key(Key::Enter));
    assert!(matches!(&actions[..], [Action::ResolveSettingsDirectory { directory, create_envrc: false }] if directory == "/x"));
}

#[test]
fn declining_an_unregistration_cancels() {
    let mut d = with_projects(1);
    press(&mut d, ch('d'));
    assert!(matches!(&d.screen, Screen::Confirm { action: ConfirmAction::Unregister { id: 0 }, .. }));
    press(&mut d, ch('n'));
    assert_eq!(d.status, "Cancelled");
    assert_eq!(d.state.projects.len(), 1);
    assert!(matches!(d.screen, Screen::Dashboard));
}

#[test]
fn a_busy_screen_ignores_keys() {
    let (mut d, _) = Dashboard::new(AppState::new());
    d.screen = Screen::Busy { message: "Working".to_string() };
    assert!(press(&mut d, key(Key::Esc)).is_empty());
    assert!(matches!(&d.screen, Screen::Busy { message } if message == "Working"));
}
