use godot_nvm::dashboard::EXIT_CLOSE_SHELL;
use godot_nvm::shell::{shell_init, Shell};

#[test]
fn close_exit_code_fits_shell_status() {
    assert!((1..=125).contains(&EXIT_CLOSE_SHELL));
}

#[test]
fn scripts_exit_the_shell_on_the_close_status() {
    let bash = shell_init(Shell::Bash);
    assert!(bash.starts_with("gnvm() {"));
    assert!(bash.contains(&format!("-eq {}", EXIT_CLOSE_SHELL)));
    let zsh = shell_init(Shell::Zsh);
    assert!(zsh.starts_with("function gnvm() {"));
    assert!(zsh.contains(&format!("== {}", EXIT_CLOSE_SHELL)));
    assert!(zsh.contains("GODOT_NVM_SHELL_INTEGRATION=1 command godot-nvm"));
}
