//! The ways a command fails, and their messages.

use vstd::prelude::*;

use crate::text::{signed_decimal, signed_decimal_string};

verus! {

/// Everything that makes a command fail.
#[derive(Debug, PartialEq, Eq)]
pub enum ForceError {
    /// No control directory was found between the working directory and the root.
    NotFound,
    /// A configuration or script file could not be parsed.
    Parse { path: String, detail: String },
    /// A script exited with a non-zero status.
    ScriptFailed { name: String, code: i32, down: bool },
    /// The working-tree path exists but is not a working tree.
    WorktreeConflict { path: String },
    /// Both attempts to create the working tree failed.
    WorktreeCreate { branch: String, detail: String },
    /// Removing the working tree failed.
    WorktreeRemove { path: String, detail: String },
    /// A file-system or process operation failed.
    Io { detail: String },
}

/// The one-line text of an error.
pub open spec fn message_of(e: ForceError) -> Seq<char> {
    match e {
        ForceError::NotFound => ".force/ directory not found. Run 'force init' to create one."@,
        ForceError::Parse { path, detail } => "Failed to parse "@ + path@ + ": "@ + detail@,
        ForceError::ScriptFailed { name, code, down } => "Script '"@ + name@ + (if down {
            "' down failed with exit code "@
        } else {
            "' failed with exit code "@
        }) + signed_decimal(code as int),
        ForceError::WorktreeConflict { path } => "Path "@ + path@
            + " exists but is not a valid git worktree"@,
        ForceError::WorktreeCreate { branch, detail } => "Failed to create worktree. Branch '"@
            + branch@ + "' may exist in another worktree.\n"@ + detail@,
        ForceError::WorktreeRemove { path, detail } => "Failed to remove worktree at "@ + path@
            + ": "@ + detail@,
        ForceError::Io { detail } => detail@,
    }
}

impl ForceError {
    /// The one-line text of this error.
    pub fn message(&self) -> (r: String)
        ensures
            r@ == message_of(*self),
    {
        match self {
            ForceError::NotFound => String::from_str(
                ".force/ directory not found. Run 'force init' to create one.",
            ),
            ForceError::Parse { path, detail } => {
                let mut s = String::from_str("Failed to parse ");
                s.append(path.as_str());
                s.append(": ");
                s.append(detail.as_str());
                s
            },
            ForceError::ScriptFailed { name, code, down } => {
                let mut s = String::from_str("Script '");
                s.append(name.as_str());
                if *down {
                    s.append("' down failed with exit code ");
                } else {
                    s.append("' failed with exit code ");
                }
                let digits = signed_decimal_string(*code);
                s.append(digits.as_str());
                s
            },
            ForceError::WorktreeConflict { path } => {
                let mut s = String::from_str("Path ");
                s.append(path.as_str());
                s.append(" exists but is not a valid git worktree");
                s
            },
            ForceError::WorktreeCreate { branch, detail } => {
                let mut s = String::from_str("Failed to create worktree. Branch '");
                s.append(branch.as_str());
                s.append("' may exist in another worktree.\n");
                s.append(detail.as_str());
                s
            },
            ForceError::WorktreeRemove { path, detail } => {
                let mut s = String::from_str("Failed to remove worktree at ");
                s.append(path.as_str());
                s.append(": ");
                s.append(detail.as_str());
                s
            },
            ForceError::Io { detail } => detail.clone(),
        }
    }
}

} // verus!
