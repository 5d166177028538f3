//! The shell integration that lets the launch-and-close action end the
//! invoking shell.
use vstd::prelude::*;
use crate::dashboard::EXIT_CLOSE_SHELL;
use crate::text::contains_text;

verus! {

/// A shell the integration supports.
#[derive(Debug, Clone, Copy, PartialEq, Eq, Structural)]
pub enum Shell {
    Bash,
    Zsh,
}

/// The `gnvm` function for Bash.
pub const BASH_INIT: &'static str = "gnvm() {\n  GODOT_NVM_SHELL_INTEGRATION=1 command godot-nvm \"$@\"\n  local godot_nvm_status=$?\n  if [ \"$godot_nvm_status\" -eq 20 ]; then\n    exit 0\n  fi\n  return \"$godot_nvm_status\"\n}\n";

/// The `gnvm` function for Zsh.
pub const ZSH_INIT: &'static str = "function gnvm() {\n  GODOT_NVM_SHELL_INTEGRATION=1 command godot-nvm \"$@\"\n  local godot_nvm_status=$?\n  if (( godot_nvm_status == 20 )); then\n    exit 0\n  fi\n  return $godot_nvm_status\n}\n";

/// The test that ends the shell, for each shell.
pub open spec fn close_test(shell: Shell) -> Seq<char> {
    match shell {
        Shell::Bash => "\"$godot_nvm_status\" -eq 20 ]; then\n    exit 0"@,
        Shell::Zsh => "(( godot_nvm_status == 20 )); then\n    exit 0"@,
    }
}

/// The script that defines `gnvm`, which runs the dashboard with the
/// integration marked active, exits the shell when the dashboard asks to
/// close it, and otherwise returns the dashboard's status.
pub fn shell_init(shell: Shell) -> (r: &'static str)
    ensures
        r@ == match shell {
            Shell::Bash => BASH_INIT@,
            Shell::Zsh => ZSH_INIT@,
        },
{
    match shell {
        Shell::Bash => BASH_INIT,
        Shell::Zsh => ZSH_INIT,
    }
}

/// The close request is an exit status a shell passes on unchanged: above
/// zero (success) and below the statuses that shells reserve (126 and up).
pub proof fn lemma_close_exit_code_fits_shell_status()
    ensures
        1 <= EXIT_CLOSE_SHELL <= 125,
{
}

/// Each script exits the shell on exactly the status that asks to close it.
pub proof fn lemma_scripts_close_on_close_status(shell: Shell)
    ensures
        EXIT_CLOSE_SHELL == 20,
        contains_text(
            match shell {
                Shell::Bash => BASH_INIT@,
                Shell::Zsh => ZSH_INIT@,
            },
            close_test(shell),
        ),
{
    reveal_strlit("gnvm() {\n  GODOT_NVM_SHELL_INTEGRATION=1 command godot-nvm \"$@\"\n  local godot_nvm_status=$?\n  if [ \"$godot_nvm_status\" -eq 20 ]; then\n    exit 0\n  fi\n  return \"$godot_nvm_status\"\n}\n");
    reveal_strlit("function gnvm() {\n  GODOT_NVM_SHELL_INTEGRATION=1 command godot-nvm \"$@\"\n  local godot_nvm_status=$?\n  if (( godot_nvm_status == 20 )); then\n    exit 0\n  fi\n  return $godot_nvm_status\n}\n");
    reveal_strlit("\"$godot_nvm_status\" -eq 20 ]; then\n    exit 0");
    reveal_strlit("(( godot_nvm_status == 20 )); then\n    exit 0");
    match shell {
        Shell::Bash => {
            let s = BASH_INIT@;
            let p = close_test(shell);
            assert(s.subrange(99, 99 + p.len() as int) =~= p);
            assert(crate::text::occurs_at(s, p, 99));
        },
        Shell::Zsh => {
            let s = ZSH_INIT@;
            let p = close_test(shell);
            assert(s.subrange(106, 106 + p.len() as int) =~= p);
            assert(crate::text::occurs_at(s, p, 106));
        },
    }
}

} // verus!
