use godot_nvm::forms::{best_version, parse_tools, validate_version, CreateForm, FormError};
use godot_nvm::model::Renderer;

#[test]
fn version_hint_chooses_newest_matching_stable() {
    let releases = vec![
        "4.7.2-stable".to_string(),
        "4.7.1-stable".to_string(),
        "4.6-stable".to_string(),
    ];
    assert_eq!(
        best_version(&releases, "4.7").as_deref(),
        Some("4.7.2-stable")
    );
}

#[test]
fn exact_stable_hint_is_kept_when_listed() {
    let releases = vec!["4.7.2-stable".to_string(), "4.7.1-stable".to_string()];
    assert_eq!(
        best_version(&releases, "4.7.1-stable").as_deref(),
        Some("4.7.1-stable")
    );
}

#[test]
fn unlisted_hint_has_no_release() {
    let releases = vec!["4.7.2-stable".to_string()];
    assert_eq!(best_version(&releases, "3.5"), None);
    assert_eq!(best_version(&releases, "4.70"), None);
    assert_eq!(best_version(&releases, "4.7.9-stable"), None);
}

#[test]
fn hint_matches_a_major_minor_release_exactly() {
    let releases = vec!["4.6.1-stable".to_string(), "4.6-stable".to_string()];
    assert_eq!(best_version(&releases, "4.6").as_deref(), Some("4.6.1-stable"));
}

#[test]
fn versions_must_be_exact_stable_tags() {
    assert_eq!(validate_version("4.7.1-stable"), Ok(()));
    assert_eq!(validate_version("4.7.1"), Err(FormError::InvalidVersion));
    assert_eq!(validate_version("4.7 -stable"), Err(FormError::InvalidVersion));
    assert_eq!(validate_version(""), Err(FormError::InvalidVersion));
}

#[test]
fn tools_split_at_commas_and_white_space() {
    assert_eq!(
        parse_tools(" git,python3Packages.pygame  blender ").unwrap(),
        vec![
            "git".to_string(),
            "python3Packages.pygame".to_string(),
            "blender".to_string()
        ]
    );
    assert_eq!(parse_tools("").unwrap(), Vec::<String>::new());
    assert_eq!(parse_tools("git; rm"), Err(FormError::InvalidTools));
}

#[test]
fn form_errors_read_as_the_status_line() {
    assert_eq!(
        FormError::InvalidVersion.message(),
        "enter an exact official stable tag, for example 4.7.1-stable"
    );
    assert_eq!(
        FormError::InvalidTools.message(),
        "extra tools must be nixpkgs attribute paths separated by spaces or commas"
    );
    assert_eq!(FormError::NameRequired.message(), "project name is required");
}

#[test]
fn renderer_index_past_the_choices_takes_the_last() {
    let mut form = CreateForm {
        name: "Game".to_string(),
        parent: "/tmp".to_string(),
        version: "3.6-stable".to_string(),
        renderer_index: 7,
        git_metadata: true,
        tools: String::new(),
        field: 0,
    };
    assert_eq!(form.renderer(), Renderer::Gles2);
    form.version = "4.7.1-stable".to_string();
    form.renderer_index = 1;
    assert_eq!(form.renderer(), Renderer::Mobile);
}
