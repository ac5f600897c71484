//! Shell setup text for transparent shims (`envy shell-init`): the static
//! one-time `PATH` line for each supported shell and the instruction that
//! points the user at it. Nothing here touches the shell or rc files.
use vstd::prelude::*;
use crate::text::{ascii_lower_spec, chars_of, contains_spec, string_of, to_ascii_lowercase};

verus! {

/// Shells supported by `envy shell-init`.
#[derive(Debug, Clone, Copy, PartialEq, Eq, Structural)]
pub enum ShellKind {
    Bash,
    Zsh,
    Fish,
    Powershell,
    Nushell,
}

/// The setup text printed by `envy shell-init` for `shell`.
pub open spec fn snippet_text(shell: ShellKind) -> Seq<char> {
    match shell {
        ShellKind::Bash => r#"# envy shims — prefix-free runs without `envy run --`, parent stays clean.
# One-time setup: keep this line LAST in ~/.bashrc (tools like fnm/nvm prepend
# to PATH and would shadow the shims), then restart your shell.
# Verify: `which -a npm` should list $HOME/.envy/shims/npm first.
# Diagnose: `envy doctor`. Per-project opt-in: `envy auto on` + `envy reshim`.
export PATH="$HOME/.envy/shims:$PATH"
"#@,
        ShellKind::Zsh => r#"# envy shims — prefix-free runs without `envy run --`, parent stays clean.
# One-time setup: keep this line LAST in ~/.zshrc (tools like fnm/nvm prepend
# to PATH and would shadow the shims), then restart your shell.
# Verify: `which -a npm` should list $HOME/.envy/shims/npm first.
# Diagnose: `envy doctor`. Per-project opt-in: `envy auto on` + `envy reshim`.
export PATH="$HOME/.envy/shims:$PATH"
"#@,
        ShellKind::Fish => r#"# envy shims — prefix-free runs without `envy run --`, parent stays clean.
# One-time setup: keep this line near the END of ~/.config/fish/config.fish
# (later PATH prepends would shadow the shims), then restart your shell.
# Verify: `which -a npm` should list ~/.envy/shims/npm first.
# Diagnose: `envy doctor`. Per-project opt-in: `envy auto on` + `envy reshim`.
set -gx PATH "$HOME/.envy/shims" $PATH
"#@,
        ShellKind::Powershell => r#"# envy shims — prefix-free runs without `envy run --`, parent stays clean.
# One-time setup: paste this into your $PROFILE (near the end, so later PATH
# prepends don't shadow the shims), then restart your shell.
# Verify: `(Get-Command npm).Source` should be under .envy\shims.
# Diagnose: `envy doctor`. Per-project opt-in: `envy auto on` + `envy reshim`.
$env:PATH = "$HOME\.envy\shims;$env:PATH"
"#@,
        ShellKind::Nushell => r#"# envy shims — prefix-free runs without `envy run --`, parent stays clean.
# One-time setup: paste this into config.nu, then restart your shell.
# Verify: `which npm` should list the shims dir first.
# Diagnose: `envy doctor`. Per-project opt-in: `envy auto on` + `envy reshim`.
$env.PATH = ($env.PATH | prepend ($env.HOME | path join .envy shims))
"#@,
    }
}

/// Returns the one-time setup text for `shell`: the shims directory put
/// first on `PATH`, with guidance on where to keep the line.
pub fn shell_init_snippet(shell: ShellKind) -> (s: &'static str)
    ensures
        s@ == snippet_text(shell),
{
    match shell {
        ShellKind::Bash => r#"# envy shims — prefix-free runs without `envy run --`, parent stays clean.
# One-time setup: keep this line LAST in ~/.bashrc (tools like fnm/nvm prepend
# to PATH and would shadow the shims), then restart your shell.
# Verify: `which -a npm` should list $HOME/.envy/shims/npm first.
# Diagnose: `envy doctor`. Per-project opt-in: `envy auto on` + `envy reshim`.
export PATH="$HOME/.envy/shims:$PATH"
"#,
        ShellKind::Zsh => r#"# envy shims — prefix-free runs without `envy run --`, parent stays clean.
# One-time setup: keep this line LAST in ~/.zshrc (tools like fnm/nvm prepend
# to PATH and would shadow the shims), then restart your shell.
# Verify: `which -a npm` should list $HOME/.envy/shims/npm first.
# Diagnose: `envy doctor`. Per-project opt-in: `envy auto on` + `envy reshim`.
export PATH="$HOME/.envy/shims:$PATH"
"#,
        ShellKind::Fish => r#"# envy shims — prefix-free runs without `envy run --`, parent stays clean.
# One-time setup: keep this line near the END of ~/.config/fish/config.fish
# (later PATH prepends would shadow the shims), then restart your shell.
# Verify: `which -a npm` should list ~/.envy/shims/npm first.
# Diagnose: `envy doctor`. Per-project opt-in: `envy auto on` + `envy reshim`.
set -gx PATH "$HOME/.envy/shims" $PATH
"#,
        ShellKind::Powershell => r#"# envy shims — prefix-free runs without `envy run --`, parent stays clean.
# One-time setup: paste this into your $PROFILE (near the end, so later PATH
# prepends don't shadow the shims), then restart your shell.
# Verify: `(Get-Command npm).Source` should be under .envy\shims.
# Diagnose: `envy doctor`. Per-project opt-in: `envy auto on` + `envy reshim`.
$env:PATH = "$HOME\.envy\shims;$env:PATH"
"#,
        ShellKind::Nushell => r#"# envy shims — prefix-free runs without `envy run --`, parent stays clean.
# One-time setup: paste this into config.nu, then restart your shell.
# Verify: `which npm` should list the shims dir first.
# Diagnose: `envy doctor`. Per-project opt-in: `envy auto on` + `envy reshim`.
$env.PATH = ($env.PATH | prepend ($env.HOME | path join .envy shims))
"#,
    }
}

/// The manual install instruction for `shell`.
pub open spec fn oneliner_text(shell: ShellKind) -> Seq<char> {
    match shell {
        ShellKind::Bash => "envy shell-init bash >> ~/.bashrc"@,
        ShellKind::Zsh => "envy shell-init zsh >> ~/.zshrc"@,
        ShellKind::Fish => "envy shell-init fish >> ~/.config/fish/config.fish"@,
        ShellKind::Powershell => "paste the output of `envy shell-init powershell` into $PROFILE"@,
        ShellKind::Nushell => "paste the output of `envy shell-init nushell` into config.nu"@,
    }
}

/// Manual install instruction for `shell` (nothing is written automatically).
pub fn oneliner_for_shell(shell: ShellKind) -> (s: String)
    ensures
        s@ == oneliner_text(shell),
{
    match shell {
        ShellKind::Bash => "envy shell-init bash >> ~/.bashrc".to_string(),
        ShellKind::Zsh => "envy shell-init zsh >> ~/.zshrc".to_string(),
        ShellKind::Fish => "envy shell-init fish >> ~/.config/fish/config.fish".to_string(),
        ShellKind::Powershell => "paste the output of `envy shell-init powershell` into $PROFILE".to_string(),
        ShellKind::Nushell => "paste the output of `envy shell-init nushell` into config.nu".to_string(),
    }
}

/// The text after the last `/` (all of it when there is none).
pub open spec fn base_name(s: Seq<char>) -> Seq<char> {
    if exists|i: int| 0 <= i < s.len() && s[i] == '/' {
        let i = choose|i: int| 0 <= i < s.len() && s[i] == '/' && forall|k: int| i < k < s.len() ==> s[k] != '/';
        s.skip(i + 1)
    } else {
        s
    }
}

/// The shell named by a `$SHELL` value: matched on the lowercase base
/// name, `zsh`, then `fish`, then `powershell`/`pwsh`, then `nu`, else bash.
pub open spec fn shell_of(shell_path: Seq<char>) -> ShellKind {
    let base = ascii_lower_spec(base_name(shell_path));
    if contains_spec(base, "zsh"@) {
        ShellKind::Zsh
    } else if contains_spec(base, "fish"@) {
        ShellKind::Fish
    } else if contains_spec(base, "powershell"@) || contains_spec(base, "pwsh"@) {
        ShellKind::Powershell
    } else if contains_spec(base, "nu"@) {
        ShellKind::Nushell
    } else {
        ShellKind::Bash
    }
}

/// Best-effort shell detection from the value of `$SHELL` (basename match),
/// falling back to bash.
pub fn detect_shell(shell_path: &str) -> (k: ShellKind)
    ensures
        k == shell_of(shell_path@),
{
    let cs = chars_of(shell_path);
    let mut i: usize = cs.len();
    while i > 0 && cs[i - 1] != '/'
        invariant
            cs@ == shell_path@,
            0 <= i <= cs@.len(),
            forall|k: int| i <= k < cs@.len() ==> cs@[k] != '/',
        decreases i,
    {
        i -= 1;
    }
    let base_str = string_of(&cs, i, cs.len());
    proof {
        if i > 0 {
            let w = choose|w: int| 0 <= w < cs@.len() && cs@[w] == '/' && forall|k: int| w < k < cs@.len() ==> cs@[k] != '/';
            assert(0 <= i - 1 < cs@.len() && cs@[i - 1] == '/' && forall|k: int| i - 1 < k < cs@.len() ==> cs@[k] != '/');
            if w < i - 1 {
                assert(cs@[i - 1] != '/');
            } else if w > i - 1 {
                assert(cs@[w] != '/');
            }
            assert(base_str@ =~= cs@.skip(i as int));
        } else {
            assert(base_str@ =~= cs@);
        }
    }
    let base = to_ascii_lowercase(base_str.as_str());
    let b = base.as_str();
    if crate::text::contains_str(b, "zsh") {
        ShellKind::Zsh
    } else if crate::text::contains_str(b, "fish") {
        ShellKind::Fish
    } else if crate::text::contains_str(b, "powershell") || crate::text::contains_str(b, "pwsh") {
        ShellKind::Powershell
    } else if crate::text::contains_str(b, "nu") {
        ShellKind::Nushell
    } else {
        ShellKind::Bash
    }
}

} // verus!
