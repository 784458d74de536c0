//! The filesystem actions an installation plans.
//!
//! The verified core never touches the filesystem: it computes a list of
//! actions, and a thin host layer performs them in order. Every action kind is
//! idempotent or an overwrite — none fails because its target already exists —
//! so re-running a plan over its own results succeeds.

use vstd::prelude::*;

verus! {

/// One planned filesystem step. Paths are UTF-8 bytes.
pub enum FsAction {
    /// Create the directory and every missing ancestor; succeed if it already
    /// exists.
    MkDirAll { path: Vec<u8> },
    /// Create or overwrite the file and write the contents fully.
    WriteFile { path: Vec<u8>, data: Vec<u8> },
    /// Remove the file.
    RemoveFile { path: Vec<u8> },
}

/// The spec-level value of an [`FsAction`].
pub enum FsActionSpec {
    MkDirAll { path: Seq<u8> },
    WriteFile { path: Seq<u8>, data: Seq<u8> },
    RemoveFile { path: Seq<u8> },
}

impl View for FsAction {
    type V = FsActionSpec;

    open spec fn view(&self) -> FsActionSpec {
        match self {
            FsAction::MkDirAll { path } => FsActionSpec::MkDirAll { path: path@ },
            FsAction::WriteFile { path, data } => FsActionSpec::WriteFile {
                path: path@,
                data: data@,
            },
            FsAction::RemoveFile { path } => FsActionSpec::RemoveFile { path: path@ },
        }
    }
}

impl FsActionSpec {
    /// The path an action touches.
    pub open spec fn path(self) -> Seq<u8> {
        match self {
            FsActionSpec::MkDirAll { path } => path,
            FsActionSpec::WriteFile { path, .. } => path,
            FsActionSpec::RemoveFile { path } => path,
        }
    }
}

/// The views of a list of actions.
pub open spec fn actions_view(v: Seq<FsAction>) -> Seq<FsActionSpec> {
    v.map_values(|a: FsAction| a@)
}

/// Viewing distributes over concatenation.
pub proof fn lemma_actions_view_concat(s1: Seq<FsAction>, s2: Seq<FsAction>)
    ensures
        actions_view(s1 + s2) == actions_view(s1) + actions_view(s2),
{
    assert forall|j: int| 0 <= j < s1.len() + s2.len() implies actions_view(s1 + s2)[j] == (
    actions_view(s1) + actions_view(s2))[j] by {
        if j < s1.len() {
            assert((s1 + s2)[j] == s1[j]);
        } else {
            assert((s1 + s2)[j] == s2[j - s1.len()]);
        }
    }
    assert(actions_view(s1 + s2) =~= actions_view(s1) + actions_view(s2));
}

} // verus!
