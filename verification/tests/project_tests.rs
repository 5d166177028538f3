use godot_nvm::project::{
    descends_into, extract_version_hint, icon_source, import_source_for_uid, inspect_text,
    is_import_metadata, parse_document, res_relative, DocumentError, IconSource,
};

#[test]
fn accepts_minimal_project_and_uses_directory_name() {
    let summary = inspect_text("config_version=5\n", Some("my-dir")).unwrap();
    assert_eq!(summary.name, "my-dir");
    assert_eq!(summary.icon, None);
    assert_eq!(summary.version_hint, None);
}

#[test]
fn extracts_metadata() {
    let text = r#"
config_version=5

[application]
config/name="A \"quoted\" game"
config/features=PackedStringArray("4.7", "GL Compatibility")
config/icon="res://icon.png"
"#;
    let metadata = inspect_text(text, Some("dir")).unwrap();
    assert_eq!(metadata.name, "A \"quoted\" game");
    assert_eq!(metadata.version_hint.as_deref(), Some("4.7"));
    assert_eq!(metadata.icon, Some(IconSource::Resource("icon.png".to_string())));
}

#[test]
fn rejects_icon_traversal() {
    let text = "config_version=5\n[application]\nconfig/icon=\"res://../secret.png\"\n";
    assert!(inspect_text(text, Some("dir")).unwrap().icon.is_none());
}

#[test]
fn resolves_uid_backed_png_icon_from_import_metadata() {
    let project = r#"config_version=5

[application]
config/name="UID icon"
config/icon="uid://dummygameicon"
"#;
    let summary = inspect_text(project, Some("dir")).unwrap();
    assert_eq!(summary.icon, Some(IconSource::Uid("uid://dummygameicon".to_string())));
    let import = r#"[remap]

importer="texture"
uid="uid://dummygameicon"

[deps]

source_file="res://assets/branding/game-icon.png"
"#;
    assert_eq!(
        import_source_for_uid(import, "uid://dummygameicon").as_deref(),
        Some("assets/branding/game-icon.png")
    );
}

#[test]
fn does_not_resolve_a_different_import_uid() {
    let import = "uid=\"uid://anothericon\"\nsource_file=\"res://icon.png\"\n";
    assert_eq!(import_source_for_uid(import, "uid://wantedicon"), None);
}

#[test]
fn accepts_multiline_godot_values() {
    let text = r#"config_version=5

[application]
config/name="Multiline"
config/features=PackedStringArray("4.7", "Forward Plus")

[file_customization]
folder_colors={
"res://addons/": "gray",
"res://assets/": "yellow"
}

[input]
move={
"deadzone": 0.5,
"events": [Object(InputEventKey,"physical_keycode":87)
, Object(InputEventKey,"physical_keycode":4194320)
]
}
"#;
    let metadata = inspect_text(text, Some("dir")).unwrap();
    assert_eq!(metadata.name, "Multiline");
    assert_eq!(metadata.version_hint.as_deref(), Some("4.7"));
}

#[test]
fn rejects_unbalanced_multiline_values() {
    let text = "config_version=5\n[input]\nmove={\n\"deadzone\": 0.5\n";
    assert!(inspect_text(text, Some("dir")).is_err());
}

#[test]
fn a_project_needs_a_positive_config_version() {
    assert_eq!(
        inspect_text("[application]\nconfig/name=\"x\"\n", None).unwrap_err(),
        DocumentError::MissingConfigVersion
    );
    assert_eq!(
        inspect_text("config_version=0\n", None).unwrap_err(),
        DocumentError::MissingConfigVersion
    );
}

#[test]
fn blank_names_fall_back() {
    let summary = inspect_text("config_version=5\n[application]\nconfig/name=\"  \"\n", None).unwrap();
    assert_eq!(summary.name, "Unnamed project");
}

#[test]
fn malformed_lines_are_reported_with_their_number() {
    assert_eq!(
        parse_document("config_version=5\n[application\n").unwrap_err(),
        DocumentError::MalformedSection { line: 2 }
    );
    assert_eq!(
        parse_document("config_version=5\njust words\n").unwrap_err(),
        DocumentError::MalformedSetting { line: 2 }
    );
    assert_eq!(
        parse_document("config_version=5\nx=(]\n").unwrap_err(),
        DocumentError::MismatchedDelimiter { line: 2 }
    );
}

#[test]
fn settings_keep_their_section() {
    let settings = parse_document("; comment\nconfig_version=5\n[application]\nconfig/name=\"G\"\n").unwrap();
    assert_eq!(settings.len(), 2);
    assert_eq!(settings[0].section, "");
    assert_eq!(settings[0].key, "config_version");
    assert_eq!(settings[1].section, "application");
    assert_eq!(settings[1].value, "\"G\"");
}

#[test]
fn version_hints_are_major_minor() {
    assert_eq!(
        extract_version_hint("PackedStringArray(\"4.3\", \"Forward Plus\")").as_deref(),
        Some("4.3")
    );
    assert_eq!(extract_version_hint("PackedStringArray(\"Mobile\")"), None);
}

#[test]
fn resource_paths_stay_inside_the_project() {
    assert_eq!(res_relative("res://a/b.png").as_deref(), Some("a/b.png"));
    assert_eq!(res_relative("res://a/../../b.png"), None);
    assert_eq!(res_relative("/etc/passwd"), None);
    assert_eq!(icon_source("uid://x"), Some(IconSource::Uid("uid://x".to_string())));
}

#[test]
fn icon_search_skips_hidden_and_build_directories() {
    assert!(descends_into("assets"));
    assert!(!descends_into(".godot"));
    assert!(is_import_metadata("icon.png.import"));
    assert!(!is_import_metadata("icon.png"));
}
