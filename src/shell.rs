//! The supported shell dialects and the file names each one uses.
use crate::text::{chars_of, contains, contains_chars};
use vstd::prelude::*;

verus! {

/// A shell dialect that gets provider wrapper functions.
#[derive(Clone, Copy, Debug, PartialEq, Eq, Structural)]
pub enum Shell {
    Bash,
    Zsh,
}

/// The dialects that wrapper functions are written for, in order.
pub open spec fn all_shells() -> Seq<Shell> {
    seq![Shell::Bash, Shell::Zsh]
}

pub open spec fn func_file_name_of(sh: Shell) -> Seq<char> {
    match sh {
        Shell::Bash => "provider-functions.bash"@,
        Shell::Zsh => "provider-functions.zsh"@,
    }
}

pub open spec fn rc_file_name_of(sh: Shell) -> Seq<char> {
    match sh {
        Shell::Bash => ".bashrc"@,
        Shell::Zsh => ".zshrc"@,
    }
}

/// The line that makes a shell read the file at `path`.
pub open spec fn source_line_of(path: Seq<char>) -> Seq<char> {
    "source "@ + path
}

/// The dialect named by the value of the `SHELL` variable: zsh wins over bash,
/// and zsh is also what an unset or unknown value gives.
pub open spec fn shell_for(var: Option<Seq<char>>) -> Shell {
    match var {
        Some(v) => if contains(v, "zsh"@) {
            Shell::Zsh
        } else if contains(v, "bash"@) {
            Shell::Bash
        } else {
            Shell::Zsh
        },
        None => Shell::Zsh,
    }
}

/// The dialect for the given value of the `SHELL` variable.
pub fn detect_shell(shell_var: Option<&str>) -> (r: Shell)
    ensures
        r == shell_for(
            match shell_var {
                Some(v) => Some(v@),
                None => None,
            },
        ),
{
    match shell_var {
        Some(v) => {
            let cs = chars_of(v);
            let zsh = chars_of("zsh");
            let bash = chars_of("bash");
            if contains_chars(&cs, &zsh) {
                Shell::Zsh
            } else if contains_chars(&cs, &bash) {
                Shell::Bash
            } else {
                Shell::Zsh
            }
        },
        None => Shell::Zsh,
    }
}

impl Shell {
    /// The name of the file, under the configuration directory, that holds
    /// this dialect's wrapper functions.
    pub fn func_file_name(&self) -> (r: &str)
        ensures
            r@ == func_file_name_of(*self),
    {
        match self {
            Shell::Bash => "provider-functions.bash",
            Shell::Zsh => "provider-functions.zsh",
        }
    }

    /// The name of this dialect's startup file in the home directory.
    pub fn rc_file_name(&self) -> (r: &str)
        ensures
            r@ == rc_file_name_of(*self),
    {
        match self {
            Shell::Bash => ".bashrc",
            Shell::Zsh => ".zshrc",
        }
    }

    /// The line that sources the file at `path` in this dialect.
    pub fn source_command(&self, path: &str) -> (r: String)
        ensures
            r@ == source_line_of(path@),
    {
        let s = String::from_str("source ");
        s.concat(path)
    }
}

} // verus!
