use godot_nvm::release::{
    cache_contents, cached_versions, check_stable_tag, finish_stable_list, is_last_page, select_asset, stable_tags_of, AssetEntry,
    ReleaseEntry, ReleaseError,
};

fn asset(name: &str) -> AssetEntry {
    AssetEntry { name: name.to_string(), url: format!("https://example.invalid/{name}") }
}

#[test]
fn the_standard_linux_editor_is_chosen() {
    let assets = vec![
        asset("Godot_v4.7.1-stable_mono_linux.x86_64.zip"),
        asset("Godot_v4.7.1-stable_linux.arm64.zip"),
        asset("Godot_v4.7.1-stable_linux.x86_64.zip"),
        asset("Godot_v4.7.1-stable_win64.exe.zip"),
    ];
    let x86 = select_asset("4.7.1-stable", "x86_64", &assets).unwrap();
    assert_eq!(x86.version, "4.7.1-stable");
    assert_eq!(x86.filename, "Godot_v4.7.1-stable_linux.x86_64.zip");
    assert_eq!(x86.url, "https://example.invalid/Godot_v4.7.1-stable_linux.x86_64.zip");
    let arm = select_asset("4.7.1-stable", "aarch64", &assets).unwrap();
    assert_eq!(arm.filename, "Godot_v4.7.1-stable_linux.arm64.zip");
}

#[test]
fn old_x11_names_are_recognised_and_mono_is_not() {
    let assets = vec![asset("Godot_v3.6-stable_MONO_x11.64.zip"), asset("Godot_v3.6-stable_x11.64.zip")];
    assert_eq!(
        select_asset("3.6-stable", "x86_64", &assets).unwrap().filename,
        "Godot_v3.6-stable_x11.64.zip"
    );
}

#[test]
fn releases_without_an_editor_are_refused() {
    let assets = vec![asset("Godot_v4.7.1-stable_win64.exe.zip")];
    assert_eq!(
        select_asset("4.7.1-stable", "x86_64", &assets),
        Err(ReleaseError::NoLinuxBuild)
    );
    assert_eq!(
        select_asset("4.7.1-stable", "riscv64", &assets),
        Err(ReleaseError::UnsupportedArchitecture)
    );
}

#[test]
fn only_exact_stable_tags_pass() {
    assert_eq!(check_stable_tag("4.7.1-stable"), Ok(()));
    assert_eq!(check_stable_tag("4.7.1-rc1"), Err(ReleaseError::NotStableTag));
    assert_eq!(check_stable_tag("4.7/1-stable"), Err(ReleaseError::NotStableTag));
}

fn entry(tag: &str, draft: bool, prerelease: bool) -> ReleaseEntry {
    ReleaseEntry { tag: tag.to_string(), draft, prerelease }
}

#[test]
fn catalogue_pages_keep_published_stable_tags() {
    let page = vec![
        entry("4.7.2-stable", false, false),
        entry("4.8-beta1", false, true),
        entry("4.7.1-stable", true, false),
        entry("4.7.1-stable", false, false),
        entry("4.7-rc2", false, false),
    ];
    assert_eq!(
        stable_tags_of(&page),
        vec!["4.7.2-stable".to_string(), "4.7.1-stable".to_string()]
    );
}

#[test]
fn repeated_tags_are_dropped_and_an_empty_list_refused() {
    let tags = vec![
        "4.7.2-stable".to_string(),
        "4.7.2-stable".to_string(),
        "4.7.1-stable".to_string(),
    ];
    assert_eq!(
        finish_stable_list(tags),
        Ok(vec!["4.7.2-stable".to_string(), "4.7.1-stable".to_string()])
    );
    assert_eq!(finish_stable_list(Vec::new()), Err(ReleaseError::NoStableReleases));
}

#[test]
fn a_short_page_is_the_last() {
    assert!(is_last_page(99));
    assert!(!is_last_page(100));
}

#[test]
fn a_cached_release_list_is_read_back() {
    let versions = cached_versions(b"[\"4.7.1-stable\", \"4.6-stable\"]").unwrap();
    assert_eq!(versions, vec!["4.7.1-stable".to_string(), "4.6-stable".to_string()]);
    assert_eq!(cached_versions(b"[]").unwrap(), Vec::<String>::new());
}

#[test]
fn a_malformed_cache_is_refused() {
    assert!(matches!(cached_versions(b"{\"versions\": []}"), Err(ReleaseError::MalformedCache)));
    assert!(matches!(cached_versions(b"[1, 2]"), Err(ReleaseError::MalformedCache)));
    assert!(matches!(cached_versions(b"not json"), Err(ReleaseError::MalformedCache)));
}

#[test]
fn the_cache_is_pretty_json_that_reads_back() {
    let versions = vec!["4.7.1-stable".to_string(), "4.6-stable".to_string()];
    let bytes = cache_contents(&versions).unwrap();
    assert_eq!(String::from_utf8(bytes.clone()).unwrap(), "[\n  \"4.7.1-stable\",\n  \"4.6-stable\"\n]");
    assert_eq!(cached_versions(&bytes).unwrap(), versions);
}
