//! What the model is told about where the command will run: the shell, the
//! working directory, the platform and, inside a Git work tree, its root,
//! branch and whether it has changes.
use vstd::prelude::*;

use vstd::utf8::{decode_utf8, valid_utf8};

use crate::text::{chars_of, string_of, trim, trim_chars};

verus! {

/// The Git work tree around the working directory.
#[derive(Debug)]
pub struct GitContext {
    pub root: String,
    pub branch: Option<String>,
    pub dirty: bool,
}

/// The context sent with a request.
#[derive(Debug)]
pub struct CommandContext {
    pub shell: String,
    pub cwd: String,
    pub os: String,
    pub arch: String,
    pub git: Option<GitContext>,
}

/// What a finished process reported: whether it succeeded, and its output.
#[derive(Debug)]
pub struct ProcessOutput {
    pub success: bool,
    pub stdout: Vec<u8>,
}

/// Calls `String::from_utf8`: the text that `bytes` encode, exactly when they
/// are valid UTF-8.
#[verifier::external_body]
fn utf8_text(bytes: Vec<u8>) -> (r: Option<String>)
    ensures
        r is Some <==> valid_utf8(bytes@),
        r matches Some(s) ==> s@ == decode_utf8(bytes@),
{
    String::from_utf8(bytes).ok()
}

/// The trimmed text that a Git query printed: nothing when it could not run,
/// failed, or printed something other than UTF-8.
pub open spec fn git_text_spec(output: Option<ProcessOutput>) -> Option<Seq<char>> {
    match output {
        Some(o) => if o.success && valid_utf8(o.stdout@) {
            Some(trim(decode_utf8(o.stdout@)))
        } else {
            None
        },
        None => None,
    }
}

/// The trimmed text that a Git query printed, if it ran, succeeded and
/// printed UTF-8.
pub fn git_output_text(output: Option<ProcessOutput>) -> (r: Option<String>)
    ensures
        r.deep_view() == git_text_spec(output),
{
    match output {
        None => None,
        Some(o) => {
            if !o.success {
                return None;
            }
            match utf8_text(o.stdout) {
                Some(text) => Some(string_of(&trim_chars(&chars_of(text.as_str())))),
                None => None,
            }
        },
    }
}

/// The Git context of a work tree with root `root`: the branch when it is
/// named (a detached head has none), and whether the status query succeeded
/// and listed any change.
pub fn git_context(root: String, branch: Option<String>, status: Option<ProcessOutput>) -> (g:
    GitContext)
    ensures
        g.root == root,
        g.branch.deep_view() == (match branch {
            Some(b) => if b@.len() == 0 {
                None
            } else {
                Some(b@)
            },
            None => None,
        }),
        g.dirty == (match status {
            Some(o) => o.success && o.stdout@.len() > 0,
            None => false,
        }),
{
    let branch = match branch {
        Some(b) => if b.as_str().is_empty() {
            None
        } else {
            Some(b)
        },
        None => None,
    };
    let dirty = match status {
        Some(o) => o.success && o.stdout.len() > 0,
        None => false,
    };
    GitContext { root, branch, dirty }
}

/// Whether the working directory lies in a Git work tree, from the output of
/// the root query (`git rev-parse --show-toplevel`): its root when the query
/// ran, succeeded and printed UTF-8; otherwise there is no Git context, and
/// no further Git query is needed.
pub fn git_root(root_output: Option<ProcessOutput>) -> (r: Option<String>)
    ensures
        r.deep_view() == git_text_spec(root_output),
        r is None <==> (match root_output {
            Some(o) => !o.success || !valid_utf8(o.stdout@),
            None => true,
        }),
{
    git_output_text(root_output)
}

} // verus!
