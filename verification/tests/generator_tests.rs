use godot_nvm::generator::{
    project_files, render_flake, render_gitignore, render_project_godot, validate_package_attr,
    validate_project_name, GenerateError, ENVRC_TEXT,
};
use godot_nvm::model::{NewProjectSpec, Renderer};
use godot_nvm::project::{inspect_text, IconSource};
use godot_nvm::release::ReleaseAsset;

fn asset() -> ReleaseAsset {
    ReleaseAsset {
        version: "4.7.1-stable".to_string(),
        url: "https://example.invalid/godot.zip".to_string(),
        filename: "Godot_v4.7.1-stable_linux.x86_64.zip".to_string(),
    }
}

#[test]
fn package_attrs_are_data_not_nix_expressions() {
    assert!(validate_package_attr("python3Packages.pygame"));
    assert!(validate_package_attr("pkg-config"));
    assert!(!validate_package_attr("git ]; builtins.abort \"oops\""));
    assert!(!validate_package_attr("a..b"));
}

#[test]
fn flake_contains_pinned_asset_data() {
    let flake = render_flake(&asset(), "sha256-example", &["git".to_string()], "x86_64").unwrap();
    assert!(flake.contains("Godot_v4.7.1-stable_linux.x86_64"));
    assert!(flake.contains("sha256-example"));
    assert!(flake.contains("git"));
}

#[test]
fn flake_pins_system_version_and_url() {
    let flake = render_flake(&asset(), "sha256-example", &[], "aarch64").unwrap();
    assert!(flake.starts_with("{\n  description = \"Godot 4.7.1-stable development environment\";"));
    assert!(flake.contains("system = \"aarch64-linux\";"));
    assert!(flake.contains("version = \"4.7.1-stable\";"));
    assert!(flake.contains("url = \"https://example.invalid/godot.zip\";"));
    assert!(flake.contains("cp \"source/Godot_v4.7.1-stable_linux.x86_64\" \"$out/bin/godot\""));
    assert!(flake.ends_with("}\n"));
}

#[test]
fn flake_refuses_bad_tools_architectures_and_archives() {
    assert_eq!(
        render_flake(&asset(), "h", &["bad tool".to_string()], "x86_64"),
        Err(GenerateError::InvalidTools)
    );
    assert_eq!(
        render_flake(&asset(), "h", &[], "riscv64"),
        Err(GenerateError::UnsupportedArchitecture)
    );
    let mut tarball = asset();
    tarball.filename = "Godot_v4.7.1-stable_linux.x86_64.tar.xz".to_string();
    assert_eq!(
        render_flake(&tarball, "h", &[], "x86_64"),
        Err(GenerateError::NotZipArchive)
    );
}

fn spec(version: &str, renderer: Renderer) -> NewProjectSpec {
    NewProjectSpec {
        name: "My \"Game\"".to_string(),
        parent: "/tmp".to_string(),
        godot_version: version.to_string(),
        renderer,
        git_metadata: true,
        extra_tools: vec!["git".to_string()],
        create_envrc: true,
    }
}

#[test]
fn godot4_project_file_names_features_and_renderer() {
    let text = render_project_godot(&spec("4.7.1-stable", Renderer::Mobile));
    assert!(text.contains("config_version=5\n"));
    assert!(text.contains("config/name=\"My \\\"Game\\\"\""));
    assert!(text.contains("config/features=PackedStringArray(\"4.7\", \"Mobile\")"));
    assert!(text.contains("renderer/rendering_method=\"mobile\""));
}

#[test]
fn godot3_project_file_uses_the_old_driver_setting() {
    let text = render_project_godot(&spec("3.6-stable", Renderer::Gles3));
    assert!(text.contains("config_version=4\n"));
    assert!(text.contains("quality/driver/driver_name=\"GLES3\""));
}

#[test]
fn project_names_are_plain_directory_names() {
    assert_eq!(validate_project_name("Game"), Ok(()));
    assert_eq!(validate_project_name("a/b"), Err(GenerateError::InvalidProjectName));
    assert_eq!(validate_project_name(".."), Err(GenerateError::InvalidProjectName));
    assert_eq!(validate_project_name(""), Err(GenerateError::InvalidProjectName));
}

#[test]
fn gitignore_lists_the_engine_cache() {
    assert!(render_gitignore("4.7.1-stable").contains(".godot/\n"));
    assert!(render_gitignore("3.6-stable").contains(".import/\n"));
}

#[test]
fn project_files_come_in_writing_order() {
    let files = project_files(&spec("4.7.1-stable", Renderer::ForwardPlus), &asset(), "h", "x86_64").unwrap();
    let names: Vec<&str> = files.iter().map(|f| f.name.as_str()).collect();
    assert_eq!(names, vec!["project.godot", "icon.svg", "flake.nix", ".envrc", ".gitignore"]);
    assert_eq!(files[3].contents, ENVRC_TEXT);
    let mut bare = spec("4.7.1-stable", Renderer::ForwardPlus);
    bare.git_metadata = false;
    bare.create_envrc = false;
    let files = project_files(&bare, &asset(), "h", "x86_64").unwrap();
    assert_eq!(files.len(), 3);
}

#[test]
fn generated_project_files_read_back() {
    let text = render_project_godot(&spec("4.7.1-stable", Renderer::Mobile));
    let summary = inspect_text(&text, Some("dir")).unwrap();
    assert_eq!(summary.name, "My \"Game\"");
    assert_eq!(summary.version_hint.as_deref(), Some("4.7"));
    assert_eq!(summary.icon, Some(IconSource::Resource("icon.svg".to_string())));
    let text = render_project_godot(&spec("3.6-stable", Renderer::Gles2));
    let summary = inspect_text(&text, Some("dir")).unwrap();
    assert_eq!(summary.name, "My \"Game\"");
    assert_eq!(summary.version_hint, None);
}

#[test]
fn project_names_are_json_escaped_and_trimmed() {
    let mut s = spec("4.7.1-stable", Renderer::Mobile);
    s.name = "  a\tb\\c\u{1}\u{7f}é ".to_string();
    let text = render_project_godot(&s);
    assert!(text.contains("config/name=\"a\\tb\\\\c\\u0001\u{7f}é\"\n"));
    let summary = inspect_text(&text, Some("dir")).unwrap();
    assert_eq!(summary.name, "a\tb\\c\u{1}\u{7f}é");
}

#[test]
fn every_renderer_reads_back() {
    for renderer in [Renderer::ForwardPlus, Renderer::Mobile, Renderer::Compatibility, Renderer::Gles3, Renderer::Gles2] {
        let mut s = spec("4.3-stable", renderer);
        s.name = " Space Game ".to_string();
        let summary = inspect_text(&render_project_godot(&s), Some("dir")).unwrap();
        assert_eq!(summary.name, "Space Game");
        assert_eq!(summary.version_hint.as_deref(), Some("4.3"));
        assert_eq!(summary.icon, Some(IconSource::Resource("icon.svg".to_string())));
        s.godot_version = "3.5.3-stable".to_string();
        let summary = inspect_text(&render_project_godot(&s), Some("dir")).unwrap();
        assert_eq!(summary.name, "Space Game");
        assert_eq!(summary.version_hint, None);
        assert_eq!(summary.icon, Some(IconSource::Resource("icon.svg".to_string())));
    }
}
