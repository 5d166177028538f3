use godot_nvm::nix::{
    current_system, dev_shells_from_json, failure_message, flake_ref, order_dev_shells,
    parse_validation_output, prefetch_hash, truncate, MalformedJson, NoVersion, PrefetchError,
    MESSAGE_LIMIT,
};

#[test]
fn constructs_path_flake_refs_without_shell_parsing() {
    assert_eq!(
        flake_ref("/tmp/a project; still data", Some("tools")),
        "path:/tmp/a project; still data#tools"
    );
}

#[test]
fn flake_ref_without_shell_names_the_flake() {
    assert_eq!(flake_ref("/srv/game", None), "path:/srv/game");
}

#[test]
fn systems_follow_the_architecture() {
    assert_eq!(current_system("x86_64"), Ok("x86_64-linux"));
    assert_eq!(current_system("aarch64"), Ok("aarch64-linux"));
    assert_eq!(current_system("riscv64").unwrap_err().arch, "riscv64");
}

#[test]
fn default_shell_comes_first_then_text_order() {
    let names = vec!["tools".to_string(), "default".to_string(), "docs".to_string()];
    assert_eq!(
        order_dev_shells(names),
        vec!["default".to_string(), "docs".to_string(), "tools".to_string()]
    );
}

#[test]
fn dev_shells_are_read_for_the_system() {
    let json = br#"{"devShells":{"x86_64-linux":{"tools":{},"default":{}},"aarch64-linux":{"arm":{}}}}"#;
    assert_eq!(
        dev_shells_from_json(json, Some("x86_64-linux")),
        Ok(vec!["default".to_string(), "tools".to_string()])
    );
    assert_eq!(dev_shells_from_json(json, Some("i686-linux")), Ok(Vec::new()));
    assert_eq!(dev_shells_from_json(json, None), Ok(Vec::new()));
    assert_eq!(dev_shells_from_json(b"{}", Some("x86_64-linux")), Ok(Vec::new()));
    assert_eq!(dev_shells_from_json(b"not json", Some("x86_64-linux")), Err(MalformedJson));
}

#[test]
fn validation_reads_the_marked_version() {
    let out = parse_validation_output("warming up\n__GODOT_NVM_VERSION__ 4.7.1.stable.official \n").unwrap();
    assert_eq!(out.version, "4.7.1.stable.official");
    assert_eq!(parse_validation_output("no marker"), Err(NoVersion));
    assert_eq!(parse_validation_output("__GODOT_NVM_VERSION__   \n"), Err(NoVersion));
}

#[test]
fn prefetch_reads_the_hash_member() {
    assert_eq!(
        prefetch_hash(br#"{"hash":"sha256-abc","storePath":"/nix/store/x"}"#),
        Ok("sha256-abc".to_string())
    );
    assert_eq!(prefetch_hash(br#"{"storePath":"/nix/store/x"}"#), Err(PrefetchError::MissingHash));
    assert_eq!(prefetch_hash(br#"{"hash":3}"#), Err(PrefetchError::MissingHash));
    assert_eq!(prefetch_hash(b"oops"), Err(PrefetchError::MalformedJson));
}

#[test]
fn failures_quote_the_last_stderr_line() {
    assert_eq!(
        failure_message("warning: x\nerror: flake has no devShell\n\n", "nix could not evaluate the flake"),
        "nix could not evaluate the flake: error: flake has no devShell"
    );
    assert_eq!(failure_message("  \n", "ctx"), "ctx: ctx");
}

#[test]
fn long_lines_are_cut_at_the_limit() {
    let long = "e".repeat(400);
    let message = failure_message(&long, "ctx");
    assert_eq!(message.len(), "ctx: ".len() + MESSAGE_LIMIT);
    assert_eq!(truncate("héllo", 2), "héllo");
    assert_eq!(truncate("héllo", 3), "hé");
    assert_eq!(truncate("abc", 10), "abc");
}
