//! Setting up: which shell integration script a shell gets.

use vstd::prelude::*;
use crate::error::MoteError;
use crate::text::str_eq;

verus! {

/// The shell integration scripts.
#[derive(Debug, Clone, Copy, PartialEq, Eq, Structural)]
pub enum ShellScript {
    /// For bash and zsh.
    Posix,
    /// For fish.
    Fish,
}

/// What is said of a shell that has no script.
pub open spec fn unsupported(shell: Seq<char>) -> Seq<char> {
    "Unsupported shell: "@ + shell + ". Use bash, zsh, or fish."@
}

/// The script for `shell`.
pub fn cmd_setup_shell(shell: &str) -> (r: Result<ShellScript, MoteError>)
    ensures
        if shell@ == "bash"@ || shell@ == "zsh"@ {
            r == Ok::<ShellScript, MoteError>(ShellScript::Posix)
        } else if shell@ == "fish"@ {
            r == Ok::<ShellScript, MoteError>(ShellScript::Fish)
        } else {
            r matches Err(MoteError::ConfigRead(said)) && said@ == unsupported(shell@)
        },
{
    if str_eq(shell, "bash") || str_eq(shell, "zsh") {
        Ok(ShellScript::Posix)
    } else if str_eq(shell, "fish") {
        Ok(ShellScript::Fish)
    } else {
        Err(
            MoteError::ConfigRead(
                crate::text::concat3("Unsupported shell: ", shell, ". Use bash, zsh, or fish."),
            ),
        )
    }
}

} // verus!
