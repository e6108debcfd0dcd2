//! Small decisions shared by the command line tools.

use vstd::prelude::*;

verus! {

/// The shells for which completions can be generated.
#[derive(Debug, Clone, Copy, PartialEq, Eq, Structural)]
pub enum CompletionShell {
    Bash,
    Fish,
    Zsh,
    PowerShell,
}

/// The shell named by the `SHELL` argument of the `completions`
/// subcommand; an unknown name selects zsh. Tools that do not offer
/// PowerShell completions treat `powershell` as unknown.
pub open spec fn shell_named(name: Seq<char>, offers_powershell: bool) -> CompletionShell {
    if name == "bash"@ {
        CompletionShell::Bash
    } else if name == "fish"@ {
        CompletionShell::Fish
    } else if offers_powershell && name == "powershell"@ {
        CompletionShell::PowerShell
    } else {
        CompletionShell::Zsh
    }
}

/// Pick the shell for completions; see `shell_named`.
pub fn completion_shell(name: &String, offers_powershell: bool) -> (s: CompletionShell)
    ensures
        s == shell_named(name@, offers_powershell),
{
    let bash = "bash".to_string();
    let fish = "fish".to_string();
    let powershell = "powershell".to_string();
    if name.eq(&bash) {
        CompletionShell::Bash
    } else if name.eq(&fish) {
        CompletionShell::Fish
    } else if offers_powershell && name.eq(&powershell) {
        CompletionShell::PowerShell
    } else {
        CompletionShell::Zsh
    }
}

} // verus!
